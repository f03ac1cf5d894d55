use lsl::text::{escape_regex, non_empty_param, take_chars};
use lsl::time::{instant_lt, RunTime, Timestamp};

#[test]
fn escape_regex_escapes_meta_characters() {
    assert_eq!(escape_regex("a.b*c"), "a.b\\*c");
    assert_eq!(escape_regex("(x|y)[0]"), "\\(x\\|y\\)\\[0\\]");
    assert_eq!(escape_regex("^$+?{}\\"), "\\^\\$\\+\\?\\{\\}\\\\");
    assert_eq!(escape_regex(""), "");
    assert_eq!(escape_regex("plain"), "plain");
}

#[test]
fn non_empty_param_drops_empty_values() {
    assert_eq!(non_empty_param(&None), None);
    assert_eq!(non_empty_param(&Some(String::new())), None);
    assert_eq!(non_empty_param(&Some("x".to_string())), Some("x".to_string()));
}

#[test]
fn take_chars_keeps_a_prefix() {
    assert_eq!(take_chars("2024-01-02T03:04:59.123", 16), "2024-01-02T03:04");
    assert_eq!(take_chars("short", 16), "short");
    assert_eq!(take_chars("héllo", 2), "hé");
}

#[test]
fn run_time_new_checks_bounds() {
    assert_eq!(RunTime::new(12345, 3), Some(RunTime { mantissa: 12345, scale: 3 }));
    assert_eq!(RunTime::new(1, 29), None);
    assert_eq!(RunTime::new(1i128 << 96, 0), None);
}

#[test]
fn ceiling_is_999_999() {
    assert_eq!(RunTime::ceiling(), RunTime { mantissa: 999999, scale: 3 });
}

#[test]
fn instants_compare_by_seconds_then_nanoseconds() {
    let a = Timestamp { secs: 10, nanos: 5 };
    let b = Timestamp { secs: 10, nanos: 6 };
    let c = Timestamp { secs: 11, nanos: 0 };
    assert!(instant_lt(&a, &b));
    assert!(instant_lt(&b, &c));
    assert!(!instant_lt(&c, &a));
    assert!(!instant_lt(&a, &a));
}

#[test]
fn plus_seconds_adds_within_range() {
    let now = Timestamp { secs: 1_700_000_000, nanos: 42 };
    assert_eq!(now.plus_seconds(604800), Some(Timestamp { secs: 1_700_604_800, nanos: 42 }));
    assert_eq!(now.plus_seconds(-1_700_000_000), Some(Timestamp { secs: 0, nanos: 42 }));
    assert_eq!(now.plus_seconds(i64::MAX), None);
    assert_eq!(now.plus_seconds(9_000_000_000_000), None);
}

fn unescape(t: &str) -> String {
    let mut out = String::new();
    let mut chars = t.chars();
    while let Some(c) = chars.next() {
        match (c, chars.clone().next()) {
            ('\\', Some(next)) => {
                out.push(next);
                chars.next();
            }
            _ => out.push(c),
        }
    }
    out
}

#[test]
fn escaping_is_undone_by_reading_back() {
    for s in ["", "plain", "a\\b", "(x|y)*", "\\\\", "^$[]{}+?", "é\\ü"] {
        assert_eq!(unescape(&escape_regex(s)), s);
    }
}
