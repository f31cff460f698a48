//! Errors and stack traces in lines of output.

use artemis::config::default_error_patterns;
use artemis::matcher::{node_frame, py_frame, LiveScanner, StreamMatcher, MAX_FRAMES};
use artemis::watcher::log_line;

fn matcher() -> StreamMatcher {
    StreamMatcher::new(&default_error_patterns()).expect("the default patterns compile")
}

#[test]
fn invalid_pattern_is_named() {
    let patterns = vec!["ok".to_string(), "(".to_string(), "[".to_string()];
    let e = StreamMatcher::new(&patterns).err().unwrap();
    assert_eq!(e.pattern, "(");
    assert!(e.cause.to_string().contains("unclosed group"));
}

#[test]
fn error_lines_are_told_by_the_patterns() {
    let m = matcher();
    assert!(m.is_error_line("TypeError: x is not a function"));
    assert!(m.is_error_line("thread 'main' panicked at src/main.rs:1"));
    assert!(m.is_error_line("Traceback (most recent call last):"));
    assert!(!m.is_error_line("all is well"));
    assert!(!StreamMatcher::new(&[]).unwrap().is_error_line("ERROR"));
}

#[test]
fn node_frames_are_parsed() {
    let m = matcher();
    let f = m.parse_frame("    at handler (/app/src/index.js:10:5)").unwrap();
    assert_eq!((f.function.as_str(), f.file.as_str()), ("handler", "/app/src/index.js"));
    assert_eq!((f.line, f.column), (10, Some(5)));
    assert_eq!(f.raw, "at handler (/app/src/index.js:10:5)");
    let f = m.parse_frame("at /app/src/index.js:10:99999999999").unwrap();
    assert_eq!((f.function.as_str(), f.line, f.column), ("<anonymous>", 10, None));
    let f = m.parse_frame("at /app/src/index.js:99999999999:1").unwrap();
    assert_eq!((f.line, f.column), (0, Some(1)));
}

#[test]
fn python_frames_are_parsed() {
    let m = matcher();
    let f = m.parse_frame("  File \"/app/main.py\", line 42, in handle_job").unwrap();
    assert_eq!((f.function.as_str(), f.file.as_str()), ("handle_job", "/app/main.py"));
    assert_eq!((f.line, f.column), (42, None));
    assert!(m.is_frame_line("  File \"a\", line 1, in b"));
    assert!(m.parse_frame("    x = compute()").is_none());
    assert!(!m.is_frame_line("    x = compute()"));
}

#[test]
fn frames_are_made_of_groups() {
    let some = |s: &str| Some(s.to_string());
    let f = node_frame(&vec![some(""), None, some("f.js"), some("3"), some("x")], " at ");
    assert_eq!((f.function.as_str(), f.file.as_str()), ("<anonymous>", "f.js"));
    assert_eq!((f.line, f.column, f.raw.as_str()), (3, None, "at"));
    let f = py_frame(&vec![some(""), some("f.py"), some("x"), some("g")], "l");
    assert_eq!((f.function.as_str(), f.file.as_str(), f.line), ("g", "f.py", 0));
}

#[test]
fn error_and_its_trace_are_one_event() {
    let m = matcher();
    let mut s = LiveScanner::new(&m);
    assert!(s.feed("starting").is_none());
    assert!(s.feed("  Error: boom ").is_none());
    assert!(s.feed("    at f (/a.js:1:2)").is_none());
    assert!(s.feed("    at g (/b.js:3:4)").is_none());
    let e = s.feed("next request").unwrap();
    assert_eq!(e.message, "Error: boom");
    assert_eq!(e.frames.len(), 2);
    assert_eq!(e.raw, "  Error: boom \n    at f (/a.js:1:2)\n    at g (/b.js:3:4)");
    assert!(s.finish().is_none());
}

#[test]
fn error_after_error_completes_the_first() {
    let m = matcher();
    let mut s = LiveScanner::new(&m);
    assert!(s.feed("ERROR one").is_none());
    assert_eq!(s.feed("ERROR two").unwrap().message, "ERROR one");
    assert_eq!(s.finish().unwrap().message, "ERROR two");
    assert!(s.finish().is_none());
}

#[test]
fn frame_without_error_is_ignored() {
    let m = matcher();
    let mut s = LiveScanner::new(&m);
    assert!(s.feed("    at f (/a.js:1:2)").is_none());
    assert!(s.finish().is_none());
}

#[test]
fn long_trace_is_cut() {
    let m = matcher();
    let mut s = LiveScanner::new(&m);
    assert!(s.feed("ERROR deep").is_none());
    for i in 1..MAX_FRAMES {
        assert!(s.feed(&format!("    at f (/a.js:{i}:1)")).is_none());
    }
    let e = s.feed("    at f (/a.js:50:1)").unwrap();
    assert_eq!(e.frames.len(), 50);
    assert_eq!(e.raw.lines().count(), 51);
    assert!(s.feed("    at f (/a.js:51:1)").is_none());
    assert!(s.finish().is_none());
}

#[test]
fn log_lines_lose_what_ends_them() {
    assert_eq!(log_line("ERROR x\r\n"), "ERROR x");
    assert_eq!(log_line("ERROR x  "), "ERROR x  ");
    assert_eq!(log_line("\n"), "");
}

#[test]
fn stream_is_divided_into_whole_blocks() {
    let m = matcher();
    let mut scanner = LiveScanner::new(&m);
    let frame = |i: usize| format!("    at f (/a.js:{i}:1)");
    let mut lines: Vec<String> = vec!["started".to_string(), frame(0), "Error: one".to_string()];
    lines.extend((0..MAX_FRAMES).map(frame));
    lines.push(frame(99));
    lines.push("Error: two".to_string());
    lines.push(frame(1));
    lines.push("    at Error: inside (/b.js:2:2)".to_string());
    lines.push("Error: three".to_string());
    lines.push("Error: four".to_string());
    let mut events = Vec::new();
    for (i, line) in lines.iter().enumerate() {
        if let Some(e) = scanner.feed(line) {
            events.push((i, e));
        }
    }
    if let Some(e) = scanner.finish() {
        events.push((lines.len(), e));
    }
    let told: Vec<(usize, &str, usize)> =
        events.iter().map(|(i, e)| (*i, e.message.as_str(), e.frames.len())).collect();
    assert_eq!(
        told,
        vec![
            (2 + MAX_FRAMES, "Error: one", MAX_FRAMES),
            (7 + MAX_FRAMES, "Error: two", 2),
            (8 + MAX_FRAMES, "Error: three", 0),
            (9 + MAX_FRAMES, "Error: four", 0),
        ]
    );
    assert_eq!(events[0].1.raw, lines[2..3 + MAX_FRAMES].join("\n"));
    assert_eq!(events[1].1.raw, lines[4 + MAX_FRAMES..7 + MAX_FRAMES].join("\n"));
    assert_eq!(events[2].1.raw, "Error: three");
}
