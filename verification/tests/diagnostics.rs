//! Diagnostic values and the files of incidents.

use artemis::clock::Timestamp;
use artemis::config::{Config, DiagnosticsConfig};
use artemis::diagnostics::{
    active, append_and_prune, buffer_body, buffer_file, buffer_lines, cutoff_ms, failed,
    has_cutoff, merge_history, ran, recent_samples,
};
use artemis::incident::{DiagnosticSample, Incident, Severity, Source};
use artemis::store::{
    analyzer_args, is_incident_file, json_file, list_heading, list_row, newest_first,
    record_steps, report_file, Step,
};

fn sample(ts_ms: i64, command: &str) -> DiagnosticSample {
    ran(ts_ms, command, "out".to_string(), Some(0))
}

fn times(samples: &[DiagnosticSample]) -> Vec<i64> {
    samples.iter().map(|s| s.ts_ms).collect()
}

#[test]
fn samples_of_commands() {
    let s = ran(5, "free -m", "ok".to_string(), None);
    assert_eq!((s.ts_ms, s.exit_code), (5, -1));
    assert_eq!((s.command.as_str(), s.output.as_str()), ("free -m", "ok"));
    let s = failed(6, "free -m", "no such file");
    assert_eq!((s.output.as_str(), s.exit_code), ("(執行失敗:no such file)", -1));
}

#[test]
fn recording_needs_commands() {
    let mut cfg = DiagnosticsConfig::default();
    assert!(!active(&cfg));
    cfg.enabled = true;
    assert!(!active(&cfg));
    cfg.commands.push("free -m".to_string());
    assert!(active(&cfg));
    cfg.enabled = false;
    assert!(!active(&cfg));
}

#[test]
fn cutoff_is_some_minutes_ago() {
    assert_eq!(cutoff_ms(1_000_000, 10), 400_000);
    assert!(has_cutoff(0, 153_722_867_280));
    assert!(!has_cutoff(0, 153_722_867_280_913));
    assert!(has_cutoff(0, u64::MAX));
    assert_eq!(cutoff_ms(0, u64::MAX), 60_000);
    assert!(!has_cutoff(i64::MAX, u64::MAX));
    assert!(!has_cutoff(i64::MIN, 1));
}

#[test]
fn old_samples_are_dropped() {
    let kept = recent_samples(vec![sample(9, "a"), sample(10, "b"), sample(11, "c")], 10);
    assert_eq!(times(&kept), vec![10, 11]);
    let kept = append_and_prune(vec![sample(1, "a"), sample(20, "b")], vec![sample(30, "c")], 10);
    assert_eq!(times(&kept), vec![20, 30]);
}

#[test]
fn buffer_is_read_as_it_was_written() {
    let list = vec!["{\"a\":1}".to_string(), "{\"b\":2}".to_string()];
    assert_eq!(buffer_body(&list), "{\"a\":1}\n{\"b\":2}\n");
    assert_eq!(buffer_lines(&buffer_body(&list)), list);
    assert_eq!(buffer_body(&vec![]), "\n");
    assert!(buffer_lines("\n").is_empty());
    assert_eq!(buffer_lines("\n  \r\nx\r\n \t\ny"), vec!["x", "y"]);
    assert_eq!(buffer_file("my-service"), "my-service.jsonl");
}

#[test]
fn history_is_merged_without_repetitions_and_sorted() {
    let history = vec![sample(5_000, "a"), sample(3_000, "b"), sample(3_000, "a")];
    let immediate = vec![
        sample(5_999, "a"),
        sample(6_000, "a"),
        sample(2_001, "b"),
        sample(2_000, "b"),
        sample(6_500, "a"),
        sample(1_000, "c"),
    ];
    let merged = merge_history(history, immediate);
    let pairs: Vec<(i64, &str)> = merged.iter().map(|s| (s.ts_ms, s.command.as_str())).collect();
    assert_eq!(
        pairs,
        vec![(1_000, "c"), (2_000, "b"), (3_000, "b"), (3_000, "a"), (5_000, "a"), (6_000, "a")]
    );
}

#[test]
fn samples_far_apart_are_no_repetition() {
    let merged = merge_history(vec![sample(i64::MIN, "a")], vec![sample(i64::MAX, "a")]);
    assert_eq!(merged.len(), 2);
}

fn incident(id: &str, secs: i64, nanos: u32) -> Incident {
    Incident::detected_at(
        Timestamp { secs, nanos },
        id.to_string(),
        "demo".to_string(),
        Source::Process,
        "boom".to_string(),
        vec![],
        String::new(),
        String::new(),
        None,
        false,
        0,
        Severity::High,
    )
}

#[test]
fn files_of_an_incident() {
    assert_eq!(json_file("x"), "x.json");
    assert_eq!(report_file("x"), "x.md");
    for name in ["x.json", "a.b.json", "..json"] {
        assert!(is_incident_file(name), "{name}");
    }
    for name in ["x.md", ".json", "json", "x.jsonl", "x.JSON", ""] {
        assert!(!is_incident_file(name), "{name}");
    }
}

#[test]
fn newest_incident_comes_first() {
    let list = newest_first(vec![
        incident("a", 1, 0),
        incident("b", 2, 5),
        incident("c", 2, 5),
        incident("d", 2, 6),
        incident("e", -1, 0),
    ]);
    let ids: Vec<&str> = list.iter().map(|i| i.id.as_str()).collect();
    assert_eq!(ids, vec!["d", "b", "c", "a", "e"]);
}

#[test]
fn list_is_written_in_columns() {
    assert_eq!(list_heading(), format!("{:<24}  {:<20}  {}", "ID", "時間", "訊息"));
    let row = list_row(&incident("20240102T150405-550e8400", 1_704_207_845, 0));
    assert_eq!(row, "20240102T150405-550e8400  2024-01-02 15:04:05   boom");
    let row = list_row(&incident("a-very-long-identifier-indeed", 0, 0));
    assert_eq!(row, "a-very-long-identifier-indeed  1970-01-01 00:00:00   boom");
}

#[test]
fn steps_of_recording_follow_the_configuration() {
    let mut cfg = Config::for_command("c".to_string(), "h".to_string());
    assert_eq!(record_steps(&cfg), vec![Step::Escalate, Step::Write, Step::Analyze]);
    cfg.diagnostics.enabled = true;
    cfg.diagnostics.commands.push("free".to_string());
    cfg.central.enabled = true;
    cfg.escalation.enabled = false;
    assert_eq!(
        record_steps(&cfg),
        vec![Step::Diagnose, Step::Write, Step::Analyze, Step::Push]
    );
}

#[test]
fn analyzer_is_called_with_the_incident() {
    let cfg = Config::for_command("c".to_string(), "h".to_string());
    assert_eq!(
        analyzer_args(&cfg, "./analyzer", "/i/x.json"),
        vec![
            "run",
            "--project",
            "./analyzer",
            "./analyzer/analyze.py",
            "/i/x.json",
            "--project-root",
            ".",
            "--context-lines",
            "6"
        ]
    );
}
