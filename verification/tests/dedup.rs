//! Decisions on repeated incidents.

use artemis::clock::Timestamp;
use artemis::config::IncidentsConfig;
use artemis::dedup::{Decision, Deduper, Entry, StormGuard};
use artemis::incident::IncidentStatus;

fn cfg(dedup_secs: u64, cooldown_secs: u64, resolve_after_secs: u64, max_per_hour: u32) -> IncidentsConfig {
    IncidentsConfig {
        dedup_window_secs: dedup_secs,
        cooldown_secs,
        resolve_after_secs,
        max_escalations_per_hour: max_per_hour,
        max_queue: 1024,
        max_pending_escalations: 8,
        rewrite_interval_secs: 10,
        shutdown_grace_secs: 30,
    }
}

fn t(offset_secs: i64) -> Timestamp {
    Timestamp { secs: 1_700_000_000 + offset_secs, nanos: 0 }
}

#[test]
fn first_occurrence_escalates() {
    let mut d = Deduper::new(cfg(300, 1800, 3600, 6));
    let decision = d.decide("fp1", t(0));
    assert_eq!(decision, Decision::NewEscalate);
}

#[test]
fn repeat_inside_window_appends() {
    let mut d = Deduper::new(cfg(300, 1800, 3600, 6));
    assert_eq!(d.decide("fp1", t(0)), Decision::NewEscalate);
    d.on_new("fp1".into(), "id1".into(), IncidentStatus::Open, t(0), true);

    let decision = d.decide("fp1", t(100));
    assert_eq!(decision, Decision::Append { id: "id1".into() });
}

#[test]
fn repeat_just_past_window_of_unmitigated_opens_new() {
    let mut d = Deduper::new(cfg(300, 1800, 3600, 6));
    d.decide("fp1", t(0));
    d.on_new("fp1".into(), "id1".into(), IncidentStatus::Open, t(0), true);
    let decision = d.decide("fp1", t(301));
    assert_eq!(decision, Decision::NewEscalate);
}

#[test]
fn recurrence_after_mitigated_within_cooldown_suppressed() {
    let mut d = Deduper::new(cfg(300, 1800, 3600, 6));
    d.decide("fp1", t(0));
    d.on_new("fp1".into(), "id1".into(), IncidentStatus::Open, t(0), true);
    d.set_status("fp1", IncidentStatus::Mitigated);
    let decision = d.decide("fp1", t(1301));
    assert_eq!(
        decision,
        Decision::Recurrence {
            prev: "id1".into(),
            escalate: false,
            reason: Some("cooldown"),
        }
    );
}

#[test]
fn recurrence_after_cooldown_escalates_with_recurrence_of() {
    let mut d = Deduper::new(cfg(300, 1800, 3600, 6));
    d.decide("fp1", t(0));
    d.on_new("fp1".into(), "id1".into(), IncidentStatus::Open, t(0), true);
    d.set_status("fp1", IncidentStatus::Mitigated);
    let decision = d.decide("fp1", t(1801));
    assert_eq!(
        decision,
        Decision::Recurrence {
            prev: "id1".into(),
            escalate: true,
            reason: None,
        }
    );
}

#[test]
fn resolved_inside_window_is_still_recurrence() {
    let mut d = Deduper::new(cfg(300, 1800, 3600, 6));
    d.decide("fp1", t(0));
    d.on_new("fp1".into(), "id1".into(), IncidentStatus::Open, t(0), true);
    d.set_status("fp1", IncidentStatus::Resolved);
    let decision = d.decide("fp1", t(100));
    assert!(matches!(decision, Decision::Recurrence { .. }));
}
#[test]
fn storm_guard_capacity_recovers_after_window_slides_for_fresh_fingerprint() {
    let mut d = Deduper::new(cfg(300, 1800, 3600, 6));
    for i in 0..6 {
        let fp = format!("fp{i}");
        let decision = d.decide(&fp, t(i as i64));
        assert_eq!(decision, Decision::NewEscalate, "第 {i} 次應該還有額度");
        d.on_new(fp, format!("id{i}"), IncidentStatus::Open, t(i as i64), true);
    }
    let decision = d.decide("fp6", t(6));
    assert_eq!(decision, Decision::NewSuppressed("storm"));
    let decision = d.decide("fp6", t(3600 + 1));
    assert_eq!(decision, Decision::NewEscalate);
}
#[test]
fn suppressed_entry_recovers_after_storm_capacity_frees_up() {
    let mut d = Deduper::new(cfg(300, 1800, 3600, 6));
    for i in 0..6 {
        let fp = format!("fp{i}");
        d.decide(&fp, t(i as i64));
        d.on_new(fp, format!("id{i}"), IncidentStatus::Open, t(i as i64), true);
    }
    let decision = d.decide("fp6", t(6));
    assert_eq!(decision, Decision::NewSuppressed("storm"));
    d.on_new("fp6".into(), "sup1".into(), IncidentStatus::Suppressed, t(6), false);
    for k in 1..10 {
        let now = t(6 + k * 60);
        let decision = d.decide("fp6", now);
        assert_eq!(decision, Decision::Append { id: "sup1".into() }, "k={k} 應該還在抑制中");
        d.on_append("fp6", now);
    }
    let now = t(3601);
    let decision = d.decide("fp6", now);
    assert_eq!(
        decision,
        Decision::Recurrence {
            prev: "sup1".into(),
            escalate: true,
            reason: None,
        }
    );
    d.on_recurrence("fp6".into(), "id6".into(), IncidentStatus::Open, now, true);
    let decision = d.decide("fp6", t(3601 + 60));
    assert_eq!(decision, Decision::Append { id: "id6".into() });
}
#[test]
fn suppressed_entry_recovers_after_cooldown_elapses() {
    let mut d = Deduper::new(cfg(300, 1800, 3600, 6));
    d.decide("fp1", t(0));
    d.on_new("fp1".into(), "id1".into(), IncidentStatus::Open, t(0), true);
    d.set_status("fp1", IncidentStatus::Mitigated);
    let decision = d.decide("fp1", t(1000));
    assert_eq!(
        decision,
        Decision::Recurrence {
            prev: "id1".into(),
            escalate: false,
            reason: Some("cooldown"),
        }
    );
    d.on_recurrence("fp1".into(), "sup1".into(), IncidentStatus::Suppressed, t(1000), false);
    for now_offset in [1200, 1500, 1799] {
        let now = t(now_offset);
        let decision = d.decide("fp1", now);
        assert_eq!(decision, Decision::Append { id: "sup1".into() }, "offset={now_offset}");
        d.on_append("fp1", now);
    }
    let now = t(1800);
    let decision = d.decide("fp1", now);
    assert_eq!(
        decision,
        Decision::Recurrence {
            prev: "sup1".into(),
            escalate: true,
            reason: None,
        }
    );
    d.on_recurrence("fp1".into(), "id2".into(), IncidentStatus::Open, now, true);
    let decision = d.decide("fp1", t(1800 + 60));
    assert_eq!(decision, Decision::Append { id: "id2".into() });
}

#[test]
fn dedup_window_zero_disables_dedup() {
    let mut d = Deduper::new(cfg(0, 1800, 3600, 6));
    d.decide("fp1", t(0));
    d.on_new("fp1".into(), "id1".into(), IncidentStatus::Open, t(0), true);
    let decision = d.decide("fp1", t(1));
    assert_eq!(decision, Decision::NewEscalate);
}

#[test]
fn resolve_due_boundary() {
    let d = Deduper::new(cfg(300, 1800, 3600, 6));
    let mut d = d;
    d.decide("fp1", t(0));
    d.on_new("fp1".into(), "id1".into(), IncidentStatus::Open, t(0), true);
    assert!(d.resolve_due(t(3600)).is_empty());
    assert_eq!(d.resolve_due(t(3601)), vec!["id1".to_string()]);
}

#[test]
fn resolve_due_ignores_resolved_but_includes_suppressed() {
    let mut d = Deduper::new(cfg(300, 1800, 3600, 6));
    d.decide("fp1", t(0));
    d.on_new("fp1".into(), "id1".into(), IncidentStatus::Open, t(0), true);
    d.set_status("fp1", IncidentStatus::Resolved);
    assert!(d.resolve_due(t(10_000)).is_empty());
    d.decide("fp2", t(0));
    d.on_new("fp2".into(), "id2".into(), IncidentStatus::Suppressed, t(0), false);
    assert_eq!(d.resolve_due(t(10_000)), vec!["id2".to_string()]);
}

#[test]
fn resolve_due_returns_oldest_last_seen_first() {
    let mut d = Deduper::new(cfg(300, 1800, 10, 6));
    d.decide("fp1", t(0));
    d.on_new("fp1".into(), "id1".into(), IncidentStatus::Open, t(0), true);
    d.decide("fp2", t(5));
    d.on_new("fp2".into(), "id2".into(), IncidentStatus::Open, t(5), true);
    d.decide("fp3", t(2));
    d.on_new("fp3".into(), "id3".into(), IncidentStatus::Open, t(2), true);
    assert_eq!(
        d.resolve_due(t(1000)),
        vec!["id1".to_string(), "id3".to_string(), "id2".to_string()]
    );
}

fn entry(id: &str, status: IncidentStatus, seen: i64) -> Entry {
    Entry {
        id: id.to_string(),
        status,
        first_seen: t(seen),
        last_seen: t(seen),
        last_escalated: None,
    }
}

#[test]
fn restored_entry_is_remembered_without_using_the_guard() {
    let mut d = Deduper::new(cfg(300, 1800, 3600, 1));
    d.restore("fp1".to_string(), entry("id1", IncidentStatus::Mitigated, 0));
    assert_eq!(d.decide("fp1", t(10)), Decision::Append { id: "id1".to_string() });
    assert_eq!(d.decide("fp2", t(10)), Decision::NewEscalate);
}

#[test]
fn seeded_guard_remembers_the_last_hour() {
    let mut d = Deduper::new(cfg(300, 1800, 3600, 1));
    d.seed_storm(vec![t(0)], t(100));
    assert_eq!(d.decide("fp1", t(3599)), Decision::NewSuppressed("storm"));
    assert_eq!(d.decide("fp1", t(3600)), Decision::NewEscalate);
    d.seed_storm(vec![t(0)], t(3600));
    assert_eq!(d.decide("fp1", t(3600)), Decision::NewEscalate);
}

#[test]
fn resolved_entries_are_forgotten_after_the_longer_span() {
    let mut d = Deduper::new(cfg(300, 1800, 3600, 6));
    d.restore("fp1".to_string(), entry("id1", IncidentStatus::Resolved, 0));
    d.restore("fp2".to_string(), entry("id2", IncidentStatus::Mitigated, 0));
    d.prune_expired(t(3600));
    assert!(matches!(d.decide("fp1", t(3600)), Decision::Recurrence { .. }));
    d.prune_expired(t(3601));
    assert_eq!(d.decide("fp1", t(3601)), Decision::NewEscalate);
    assert!(matches!(d.decide("fp2", t(3601)), Decision::Recurrence { .. }));
}

#[test]
fn storm_guard_counts_one_hour() {
    let mut g = StormGuard::new(2);
    assert!(g.has_capacity(t(0)));
    g.consume(t(0));
    g.consume(t(1));
    assert!(!g.has_capacity(t(3599)));
    assert!(g.has_capacity(t(3600)));
    let mut none = StormGuard::new(0);
    none.consume(t(0));
    assert!(none.has_capacity(t(0)));
}

#[test]
fn deciding_twice_gives_the_same_decision() {
    let mut d = Deduper::new(cfg(300, 1800, 3600, 1));
    d.on_new("fp1".to_string(), "id1".to_string(), IncidentStatus::Open, t(0), true);
    assert_eq!(d.decide("fp2", t(10)), d.decide("fp2", t(10)));
    d.set_status("unknown", IncidentStatus::Resolved);
    d.on_append("unknown", t(10));
    assert_eq!(d.decide("unknown", t(10)), Decision::NewSuppressed("storm"));
}

#[test]
fn recurrence_without_room_is_suppressed_by_the_storm() {
    let mut d = Deduper::new(cfg(300, 10, 3600, 1));
    d.on_new("fp1".to_string(), "id1".to_string(), IncidentStatus::Mitigated, t(0), true);
    assert_eq!(
        d.decide("fp1", t(400)),
        Decision::Recurrence { prev: "id1".to_string(), escalate: false, reason: Some("storm") }
    );
}

#[test]
fn without_a_window_everything_is_new_whatever_is_remembered() {
    let statuses = [
        IncidentStatus::Open,
        IncidentStatus::Escalating,
        IncidentStatus::Mitigated,
        IncidentStatus::Resolved,
        IncidentStatus::Suppressed,
    ];
    for status in statuses {
        let mut d = Deduper::new(cfg(0, 1800, 3600, 2));
        d.on_new("fp1".into(), "id1".into(), status, t(0), true);
        assert_eq!(d.decide("fp1", t(0)), Decision::NewEscalate);
        assert_eq!(d.decide("fp1", t(1)), Decision::NewEscalate);
        d.on_new("fp1".into(), "id2".into(), status, t(1), true);
        assert_eq!(d.decide("fp1", t(2)), Decision::NewSuppressed("storm"));
        assert_eq!(d.decide("fp1", t(3600)), Decision::NewEscalate);
    }
}

#[test]
fn without_a_window_no_span_is_needed() {
    let mut d = Deduper::new(cfg(0, u64::MAX / 2, 3600, 6));
    d.on_new("fp1".into(), "id1".into(), IncidentStatus::Suppressed, t(0), true);
    assert!(d.can_decide("fp1", t(1)));
    assert_eq!(d.decide("fp1", t(1)), Decision::NewEscalate);
    let mut d = Deduper::new(cfg(300, u64::MAX / 2, 3600, 6));
    d.on_new("fp1".into(), "id1".into(), IncidentStatus::Suppressed, t(0), true);
    assert!(!d.can_decide("fp1", t(1)));
    assert!(d.can_decide("fp2", t(1)));
}

#[test]
fn leap_second_counts_as_time() {
    let leap = Timestamp { secs: 59, nanos: 1_500_000_000 };
    let mut d = Deduper::new(cfg(300, 1800, 3600, 6));
    d.on_new("fp1".into(), "id1".into(), IncidentStatus::Open, leap, true);
    let later = |secs: i64, nanos: u32| Timestamp { secs, nanos };
    assert_eq!(d.decide("fp1", later(360, 0)), Decision::NewEscalate);
    assert_eq!(
        d.decide("fp1", later(359, 500_000_000)),
        Decision::Append { id: "id1".into() }
    );
    assert_eq!(
        d.decide("fp1", later(359, 500_000_001)),
        Decision::NewEscalate
    );
}

#[test]
fn hour_of_the_guard_ends_on_the_second_after_a_leap_second() {
    let leap = Timestamp { secs: 59, nanos: 1_500_000_000 };
    let mut guard = StormGuard::new(1);
    guard.consume(leap);
    assert!(!guard.has_capacity(Timestamp { secs: 3659, nanos: 999_999_999 }));
    assert!(guard.has_capacity(Timestamp { secs: 3660, nanos: 0 }));
    let mut guard = StormGuard::new(1);
    guard.consume(Timestamp { secs: 60, nanos: 500_000_000 });
    assert!(!guard.has_capacity(Timestamp { secs: 3659, nanos: 1_499_999_999 }));
    assert!(guard.has_capacity(Timestamp { secs: 3659, nanos: 1_500_000_000 }));
}

#[test]
fn longest_unseen_comes_first_by_seconds_before_nanoseconds() {
    let mut d = Deduper::new(cfg(300, 1800, 3600, 6));
    let leap = Timestamp { secs: 59, nanos: 1_900_000_000 };
    let after = Timestamp { secs: 60, nanos: 0 };
    d.on_new("b".into(), "after".into(), IncidentStatus::Open, after, false);
    d.on_new("a".into(), "leap".into(), IncidentStatus::Open, leap, false);
    assert_eq!(d.resolve_due(t(0)), vec!["leap".to_string(), "after".to_string()]);
}
