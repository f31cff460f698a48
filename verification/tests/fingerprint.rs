//! Fingerprints and the templates they are made from.

use artemis::fingerprint::{
    basename, compute, finish_template, fingerprint_of, fnv1a64, normalize_template, source_key,
    top_frame_key,
};
use artemis::incident::{Frame, Source};

fn frame(file: &str, function: &str, line: u32) -> Frame {
    Frame {
        function: function.to_string(),
        file: file.to_string(),
        line,
        column: None,
        raw: String::new(),
    }
}

#[test]
fn fnv1a64_known_vectors() {
    assert_eq!(fnv1a64(b""), 0xcbf29ce484222325);
    assert_eq!(fnv1a64(b"a"), 0xaf63dc4c8601ec8c);
}

#[test]
fn normalizes_uuid() {
    let s = normalize_template("request 550e8400-e29b-41d4-a716-446655440000 failed");
    assert_eq!(s, "request <uuid> failed");
}

#[test]
fn normalizes_iso_timestamp() {
    let s = normalize_template("error at 2024-01-02T15:04:05.123Z during startup");
    assert_eq!(s, "error at <ts> during startup");
}

#[test]
fn normalizes_syslog_timestamp() {
    let s = normalize_template("Jan 2 15:04:05 host kernel: oom-killer triggered");
    assert_eq!(s, "<ts> host kernel: oom-killer triggered");
}

#[test]
fn normalizes_hex() {
    let s = normalize_template("segfault at address 0xdeadbeef in thread");
    assert_eq!(s, "segfault at address <hex> in thread");
}

#[test]
fn normalizes_bare_long_hex_run() {
    let s = normalize_template("panic code abcdef1234 occurred");
    assert_eq!(s, "panic code <hex> occurred");
}

#[test]
fn normalizes_absolute_path() {
    let s = normalize_template("failed to read /var/log/app/error.log now");
    assert_eq!(s, "failed to read <path> now");
}

#[test]
fn normalizes_relative_path() {
    let s = normalize_template("at ./src/main.rs handler");
    assert_eq!(s, "at <path> handler");
}

#[test]
fn normalizes_remaining_numbers() {
    let s = normalize_template("retry attempt 3 of 5 failed");
    assert_eq!(s, "retry attempt <n> of <n> failed");
}

#[test]
fn collapses_whitespace_and_trims() {
    let s = normalize_template("  too    many   \t spaces  \n here  ");
    assert_eq!(s, "too many spaces here");
}

#[test]
fn truncates_to_256_chars_char_boundary_safe() {
    let long_msg: String = "錯".repeat(300);
    let s = normalize_template(&long_msg);
    assert_eq!(s.chars().count(), 256);
}

#[test]
fn same_error_different_line_pid_timestamp_same_fingerprint() {
    let frames_a = vec![frame("/app/src/worker.py", "handle_job", 42)];
    let frames_b = vec![frame("/app/src/worker.py", "handle_job", 108)];

    let (fp_a, _) = compute(
        &Source::Process,
        "2024-01-02T15:04:05Z worker pid 1234 crashed with code 0xdead",
        &frames_a,
    );
    let (fp_b, _) = compute(
        &Source::Process,
        "2024-03-09T08:11:59Z worker pid 9999 crashed with code 0xbeef",
        &frames_b,
    );
    assert_eq!(fp_a, fp_b);
}

#[test]
fn different_source_different_fingerprint() {
    let frames = vec![frame("/app/src/worker.py", "handle_job", 42)];
    let (fp_process, _) = compute(&Source::Process, "worker crashed", &frames);
    let (fp_log, _) = compute(
        &Source::LogFile("/var/log/worker.log".to_string()),
        "worker crashed",
        &frames,
    );
    assert_ne!(fp_process, fp_log);
}

#[test]
fn different_message_different_fingerprint() {
    let (fp_a, _) = compute(&Source::Process, "out of memory", &[]);
    let (fp_b, _) = compute(&Source::Process, "connection refused", &[]);
    assert_ne!(fp_a, fp_b);
}

#[test]
fn fingerprint_is_16_hex_chars() {
    let (fp, _) = compute(&Source::Process, "some error", &[]);
    assert_eq!(fp.len(), 16);
    assert!(fp.chars().all(|c| c.is_ascii_hexdigit()));
}

#[test]
fn template_is_cut_and_trimmed() {
    assert_eq!(finish_template("  a b  "), "a b");
    assert_eq!(finish_template(&"x".repeat(256)), "x".repeat(256));
    assert_eq!(finish_template(&"x".repeat(257)), "x".repeat(256));
    assert_eq!(finish_template(&format!(" {}", "錯".repeat(300))), "錯".repeat(256));
}

#[test]
fn hash_of_known_text() {
    assert_eq!(fnv1a64(b"foobar"), 0x85944171f73967e8);
}

#[test]
fn file_names() {
    assert_eq!(basename("/app/src/worker.py"), "worker.py");
    assert_eq!(basename("C:\\app\\worker.py"), "worker.py");
    assert_eq!(basename("worker.py"), "worker.py");
    assert_eq!(basename("dir/"), "");
    assert_eq!(basename(""), "");
}

#[test]
fn keys_that_are_hashed() {
    assert_eq!(source_key(&Source::Process), "process");
    assert_eq!(source_key(&Source::LogFile("/var/log/a".to_string())), "log:/var/log/a");
    assert_eq!(top_frame_key(&[]), "");
    let frames = vec![frame("/a/b.py", "f", 1), frame("/a/c.py", "g", 2)];
    assert_eq!(top_frame_key(&frames), "b.py::f");
}

#[test]
fn fingerprint_hashes_source_template_and_top_frame() {
    let frames = vec![frame("/a/b.py", "f", 1)];
    let expected = format!("{:016x}", fnv1a64("process|boom|b.py::f".as_bytes()));
    assert_eq!(fingerprint_of(&Source::Process, "boom", &frames), expected);
    assert_eq!(compute(&Source::Process, " boom ", &frames), (expected, "boom".to_string()));
}

#[test]
fn line_column_directory_and_deeper_calls_do_not_matter() {
    let mut a = vec![frame("/a/b.py", "f", 1), frame("/a/c.py", "g", 2)];
    a[0].column = Some(7);
    a[0].raw = "at f".to_string();
    let b = vec![frame("/other/b.py", "f", 99)];
    assert_eq!(compute(&Source::Process, "boom", &a), compute(&Source::Process, "boom", &b));
}

#[test]
fn white_space_makes_no_difference() {
    assert_eq!(finish_template("a \t\u{a0}\u{3000}\n b"), "a b");
    assert_eq!(finish_template("\u{2003}a\u{85}b\u{1680}"), "a b");
    assert_eq!(finish_template(" \t \n"), "");
    assert_eq!(finish_template(""), "");
    let plain = normalize_template("request 7 failed at /var/log/app.log");
    assert_eq!(plain, "request <n> failed at <path>");
    assert_eq!(normalize_template(" \t request  7\nfailed at  /var/log/app.log\r\n"), plain);
    let cut = finish_template(&format!("{} b", "x".repeat(255)));
    assert_eq!(cut, format!("{} ", "x".repeat(255)));
}
