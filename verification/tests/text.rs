//! Text operations against those of the standard library.

use artemis::clock::{is_span, span_nanos, Timestamp};
use artemis::table::Table;
use artemis::text::{
    chars_of, decimal_of, find, hex_of, is_whitespace, join, lines, parse_u32, signed_decimal_of,
    string_of, trim, trim_end_of,
};

#[test]
fn white_space_is_that_of_unicode() {
    for n in 0..=0x10ffff_u32 {
        if let Some(c) = char::from_u32(n) {
            assert_eq!(is_whitespace(c), c.is_whitespace(), "{n:#x}");
        }
    }
}

#[test]
fn trim_agrees_with_std() {
    for s in ["", " ", " a", "a ", "\t a b \u{3000}", "\u{200b}a", "\r\n", "錯 誤 "] {
        assert_eq!(trim(s), s.trim());
    }
}

#[test]
fn trim_end_of_two_characters() {
    for s in ["", "\n", "a\r\n", "a\n\r\n", "\na", "a b\r"] {
        assert_eq!(trim_end_of(s, '\n', '\r'), s.trim_end_matches(['\n', '\r']));
    }
}

#[test]
fn numbers_are_read_as_std_reads_them() {
    let cases = [
        "", "+", "-", "0", "00", "7", "+7", "-7", "++7", "42", "4294967295", "4294967296",
        "99999999999999999999", "000000000000000000001", "1 ", " 1", "1a", "١", "+0",
    ];
    for s in cases {
        assert_eq!(parse_u32(s), s.parse::<u32>().ok(), "{s:?}");
    }
}

#[test]
fn numbers_are_written_as_std_writes_them() {
    for n in [0, 7, 10, 99, 100, 12345, u64::MAX] {
        assert_eq!(decimal_of(n), n.to_string());
        assert_eq!(hex_of(n, 16), format!("{n:016x}"));
    }
    for n in [0, -1, 42, i64::MIN, i64::MAX] {
        assert_eq!(signed_decimal_of(n), n.to_string());
    }
    assert_eq!(hex_of(0x1234, 2), "34");
}

#[test]
fn lines_agree_with_std() {
    for s in ["", "\n", "a", "a\n", "a\nb", "a\r\nb\r", "\n\n", "a\n\r\nb", "\r", "a\r\r\n"] {
        assert_eq!(lines(s), s.lines().collect::<Vec<_>>(), "{s:?}");
    }
}

#[test]
fn parts_are_joined_and_found() {
    let parts = vec!["a".to_string(), "".to_string(), "c".to_string()];
    assert_eq!(join(&parts, ", "), parts.join(", "));
    assert_eq!(join(&vec![], ", "), "");
    let cs = chars_of("aaab");
    assert_eq!(string_of(&cs, 1, 4), "aab");
    assert_eq!(find(&cs, 0, &chars_of("ab")), Some(2));
    assert_eq!(find(&cs, 1, &chars_of("ab")), Some(1));
    assert_eq!(find(&cs, 0, &chars_of("ba")), None);
    assert_eq!(find(&cs, 4, &chars_of("")), Some(0));
}

#[test]
fn table_holds_the_last_value_of_each_key() {
    let mut t: Table<u32> = Table::new();
    t.insert("a".to_string(), 1);
    t.insert("b".to_string(), 2);
    t.insert("a".to_string(), 3);
    assert_eq!(t.len(), 2);
    assert_eq!(t.get("a"), Some(&3));
    assert_eq!(t.remove("a"), Some(3));
    assert_eq!(t.remove("a"), None);
    assert!(t.contains_key("b"));
    assert_eq!(t.entry(0), (&"b".to_string(), &2));
    assert_eq!(t.take_entries(), vec![("b".to_string(), 2)]);
    assert_eq!(t.len(), 0);
}

#[test]
fn spans_are_those_that_fit_in_milliseconds() {
    assert!(is_span(0));
    assert!(is_span(9_223_372_036_854_775));
    assert!(!is_span(9_223_372_036_854_776));
    assert!(is_span(u64::MAX));
    assert_eq!(span_nanos(10), 10_000_000_000);
    assert_eq!(span_nanos(u64::MAX), -1_000_000_000);
}

#[test]
fn instants_are_ordered_by_seconds_and_nanoseconds() {
    let t = |secs: i64, nanos: u32| Timestamp { secs, nanos };
    assert!(t(1, 0).ranked() > t(0, 1_999_999_999).ranked());
    assert!(t(-1, 5).ranked() < t(0, 0).ranked());
    assert_eq!(t(2, 7).total_nanos(), 2_000_000_007);
}

#[test]
fn time_between_instants_is_that_of_chrono() {
    let instants = [
        Timestamp { secs: 59, nanos: 1_500_000_000 },
        Timestamp { secs: 59, nanos: 999_999_999 },
        Timestamp { secs: 60, nanos: 0 },
        Timestamp { secs: 360, nanos: 7 },
        Timestamp { secs: -1, nanos: 1_000_000_000 },
        Timestamp { secs: -86_341, nanos: 1_999_999_999 },
        Timestamp { secs: 1_700_000_000, nanos: 123_456_789 },
        Timestamp { secs: -1_700_000_000, nanos: 1 },
    ];
    let date = |t: &Timestamp| chrono::DateTime::from_timestamp(t.secs, t.nanos).unwrap();
    for a in &instants {
        for b in &instants {
            let expected = date(a) - date(b);
            let whole = expected.num_seconds() as i128 * 1_000_000_000;
            assert_eq!(a.nanos_since(b), whole + expected.subsec_nanos() as i128);
            assert_eq!(a.ranked() < b.ranked(), date(a) < date(b));
            let hour_before = date(b) - chrono::Duration::hours(1);
            assert_eq!(
                a.settled_nanos() > b.total_nanos() - 3_600_000_000_000,
                date(a) > hour_before
            );
        }
    }
}

#[test]
fn calendar_names_what_chrono_names() {
    let edges = [
        (-8_334_601_228_800, 0),
        (-8_334_601_228_801, 0),
        (8_210_266_876_799, 999_999_999),
        (8_210_266_876_800, 0),
        (59, 1_999_999_999),
        (59, 2_000_000_000),
        (58, 1_000_000_000),
        (-1, 1_000_000_000),
        (-61, 1_000_000_000),
        (-60, 1_000_000_000),
    ];
    for (secs, nanos) in edges {
        let t = Timestamp { secs, nanos };
        assert_eq!(t.is_on_calendar(), chrono::DateTime::from_timestamp(secs, nanos).is_some());
    }
}
