//! Incidents as they are made.

use artemis::clock::Timestamp;
use artemis::fingerprint::compute;
use artemis::incident::{
    default_occurrence_count, EscalationReport, Incident, IncidentStatus, Severity, Source,
    StageResult,
};

fn detected(message: &str) -> Incident {
    Incident::detected(
        "demo".to_string(),
        Source::Process,
        message.to_string(),
        vec![],
        "raw".to_string(),
        "node app.js".to_string(),
        Some(1),
        true,
        3,
        Severity::Critical,
    )
}

#[test]
fn identifier_is_made_of_the_time_and_the_uuid() {
    let now = Timestamp { secs: 1_704_207_845, nanos: 123 };
    let id = Incident::id_at(now, "550e8400-e29b-41d4-a716-446655440000");
    assert_eq!(id, "20240102T150405-550e8400");
    let before_1970 = Timestamp { secs: -1, nanos: 0 };
    assert_eq!(Incident::id_at(before_1970, "0123456789"), "19691231T235959-01234567");
}

#[test]
fn identifier_at_the_ends_of_the_calendar() {
    let first = Timestamp { secs: -8_334_601_228_800, nanos: 0 };
    assert_eq!(Incident::id_at(first, "01234567"), "-2621430101T000000-01234567");
    let last = Timestamp { secs: 8_210_266_876_799, nanos: 999_999_999 };
    assert_eq!(Incident::id_at(last, "01234567"), "+2621421231T235959-01234567");
    let leap = Timestamp { secs: 1_704_207_899, nanos: 1_500_000_000 };
    assert_eq!(Incident::id_at(leap, "01234567"), "20240102T150460-01234567");
}

#[test]
fn new_identifiers_have_their_form_and_differ() {
    let id = Incident::new_id();
    assert_eq!(id.len(), 24);
    let (time, short) = id.split_once('-').unwrap();
    assert_eq!(time.len(), 15);
    assert_eq!(&time[8..9], "T");
    assert_eq!(short.len(), 8);
    assert!(short.chars().all(|c| c.is_ascii_digit() || ('a'..='f').contains(&c)));
    assert_ne!(id, Incident::new_id());
}

#[test]
fn detected_incident_is_open_and_seen_once() {
    let inc = detected("boom 42");
    assert!(inc.timestamp.secs > 1_700_000_000);
    assert!(inc.timestamp.nanos < 1_000_000_000);
    assert_eq!(inc.first_seen, Some(inc.timestamp));
    assert_eq!(inc.last_seen, Some(inc.timestamp));
    assert_eq!(inc.occurrence_count, 1);
    assert_eq!(inc.status, IncidentStatus::Open);
    assert_eq!(inc.severity, Severity::Critical);
    assert_eq!((inc.exit_code, inc.restarted, inc.restart_count), (Some(1), true, 3));
    assert!(inc.escalation.is_none() && inc.diagnostics_history.is_empty());
    let (fingerprint, template) = compute(&Source::Process, "boom 42", &[]);
    assert_eq!(inc.fingerprint, Some(fingerprint));
    assert_eq!(inc.fingerprint_template, Some(template));
}

#[test]
fn incident_is_made_at_the_time_and_with_the_identifier_given() {
    let t = Timestamp { secs: 5, nanos: 6 };
    let inc = Incident::detected_at(
        t,
        "id".to_string(),
        "demo".to_string(),
        Source::LogFile("/a".to_string()),
        "m".to_string(),
        vec![],
        "r".to_string(),
        "c".to_string(),
        None,
        false,
        0,
        Severity::Low,
    );
    assert_eq!((inc.id.as_str(), inc.timestamp), ("id", t));
    assert_eq!(inc.source, Source::LogFile("/a".to_string()));
    assert_eq!(inc.fingerprint_template.as_deref(), Some("m"));
}

#[test]
fn defaults() {
    assert_eq!(IncidentStatus::default(), IncidentStatus::Open);
    assert_eq!(Severity::default(), Severity::High);
    assert_eq!(default_occurrence_count(), 1);
    let stage = StageResult::default();
    assert!(!stage.ran && stage.stage.is_empty() && stage.files_changed.is_empty());
    let report = EscalationReport::default();
    assert!(!report.final_resolved && report.multi_agent_analysis.is_none());
}
