use kron::error::KronError;
use kron::paths::{join_path, parent_of};
use kron::split::{
    byte_count, pad, split_fields, split_lines, split_once, split_words, trim_end_char,
    trim_start_char, trim_start_text,
};
use kron::strmap::{Duplicate, StrMap};
use kron::text::{
    concat4, decimal_of, hex_of, hexadecimal_of, parse_number, place, same, strip_prefix,
    to_lower, trim, Place,
};
use kron::timer::{OverlapPolicy, Run, RunId, TimerId};
use kron::timestamp::Timestamp;

#[test]
fn texts_are_ordered_as_strings_are() {
    let texts = ["", "a", "ab", "b", "é", "z", "ß", "\u{10000}"];
    for a in texts {
        for b in texts {
            let expected = if a == b {
                Place::Same
            } else if a < b {
                Place::Before
            } else {
                Place::After
            };
            assert!(place(a, b) == expected);
            assert_eq!(same(a, b), a == b);
        }
    }
}

#[test]
fn trimming_agrees_with_std() {
    for text in ["", " a ", "\u{3000}x\u{2003}", "\r\nx\t", "   ", "a b"] {
        assert_eq!(trim(text), text.trim());
    }
    assert_eq!(strip_prefix("abc", "ab").as_deref(), Some("c"));
    assert_eq!(strip_prefix("abc", "b"), None);
    assert_eq!(trim_start_char("//a/", '/'), "a/");
    assert_eq!(trim_end_char("//a/", '/'), "//a");
    assert_eq!(trim_start_text("http://http://x", "http://"), "x");
}

#[test]
fn splitting_agrees_with_std() {
    for text in ["", "a", "a:b", "a:b:c", ":", "::", "a\nb", "a\r\nb\r\n", "\n", "a\r", " a  b ", "\u{2003}x\ty"] {
        assert_eq!(split_lines(text), text.lines().collect::<Vec<_>>());
        assert_eq!(split_words(text), text.split_whitespace().collect::<Vec<_>>());
        assert_eq!(split_fields(text, ':'), text.split(':').collect::<Vec<_>>());
        let once = text.split_once(':').map(|(a, b)| (a.to_string(), b.to_string()));
        assert_eq!(split_once(text, ':'), once);
        assert_eq!(byte_count(text), text.len());
    }
}

#[test]
fn padding_agrees_with_std() {
    assert_eq!(pad("ab", 5), format!("{:<5}", "ab"));
    assert_eq!(pad("é", 3), format!("{:<3}", "é"));
    assert_eq!(pad("abcdef", 3), "abcdef");
}

#[test]
fn numbers_agree_with_std() {
    for n in [0u64, 7, 10, 99, 12345, u64::MAX] {
        assert_eq!(decimal_of(n), n.to_string());
        assert_eq!(parse_number(&n.to_string(), u64::MAX), Some(n));
        assert_eq!(hexadecimal_of(n, 16), format!("{n:016x}"));
    }
    for text in ["", "+", "+5", "-1", "1a", " 1", "18446744073709551616", "007"] {
        assert_eq!(parse_number(text, u64::MAX), text.parse::<u64>().ok());
    }
    assert_eq!(parse_number("65536", u16::MAX as u64), None);
    assert_eq!(hex_of(&vec![0, 15, 255]), "000fff");
    assert_eq!(to_lower("AbC-É"), "abc-É");
    assert_eq!(concat4("a", "b", "", "c"), "abc");
}

#[test]
fn parents_agree_with_std() {
    for path in [
        "", "/", "//", "a", "a/", "a/b", "/a", "/a/b/", "a//b", "a/./b", "a/.", ".", "./a", "..", "../x", "/.", "a/b/.",
    ] {
        let expected = std::path::Path::new(path)
            .parent()
            .map(|p| p.to_string_lossy().into_owned());
        let ours = parent_of(path);
        assert_eq!(ours.is_some(), expected.is_some(), "{path}");
        if let (Some(a), Some(b)) = (ours, expected) {
            assert_eq!(std::path::Path::new(&a), std::path::Path::new(&b), "{path}");
        }
    }
    assert_eq!(join_path("dir", "f"), "dir/f");
    assert_eq!(join_path("dir/", "f"), "dir/f");
    assert_eq!(join_path("", "f"), "f");
}

#[test]
fn maps_are_walked_in_the_order_of_their_keys() {
    let mut map: StrMap<u64> = StrMap::new();
    for (key, value) in [("b", 2), ("a", 1), ("c", 3), ("b", 20)] {
        map.insert(key.to_string(), value);
    }
    assert_eq!(map.len(), 3);
    assert_eq!(map.key_at(0), "a");
    assert_eq!(*map.value_at(1), 20);
    assert_eq!(map.get("c"), Some(&3));
    assert_eq!(map.remove("a"), Some(1));
    assert_eq!(map.remove("a"), None);
    assert!(!map.contains("a"));
    let copy = map.duplicate();
    map.remove("b");
    assert_eq!(copy.len(), 2);
}

#[test]
fn errors_have_messages() {
    let cases = [
        (KronError::InvalidCron("x".into()), "invalid cron expression: x"),
        (KronError::InvalidTimezone("x".into()), "invalid timezone: x"),
        (KronError::TimerNotFound("x".into()), "timer not found: x"),
        (KronError::LogIo("x".into()), "log I/O error: x"),
        (KronError::LogSerde("x".into()), "log serialization error: x"),
        (
            KronError::CorruptLog { path: "p".into(), line: 3, source: "x".into() },
            "corrupt log line 3 in p: x",
        ),
        (KronError::AlreadyStarted, "engine already started"),
        (KronError::AlreadyStopped, "engine has already been shut down"),
        (KronError::ShutdownTimeout { timeout_ms: 20 }, "shutdown timed out after 20ms"),
        (KronError::DataDirLocked { path: "p".into() }, "data directory is already locked: p"),
        (KronError::InvalidSnapshot("x".into()), "invalid snapshot: x"),
        (KronError::IpcUnavailable("x".into()), "IPC unavailable: x"),
    ];
    for (error, message) in cases {
        assert_eq!(error.message(), message);
    }
    assert!(KronError::InvalidTimezone("x".into()).is_value_error());
    assert!(!KronError::TimerNotFound("x".into()).is_value_error());
}

#[test]
fn names_of_runs() {
    assert_eq!(
        RunId::from_ulid("01ARZ3NDEKTSV4RRFFQ69G5FAV").0,
        "run_01arz3ndektsv4rrffq69g5fav"
    );
    let a = RunId::new();
    let b = RunId::new();
    assert_ne!(a, b);
    assert_eq!(a.0.len(), 30);
    let now = Timestamp::new(1_781_000_000, 0).unwrap();
    let mut run = Run::new(TimerId::new("t"), now);
    assert_eq!(run.duration_ms(), None);
    run.started_at = Some(now);
    run.finished_at = now.plus(2);
    assert_eq!(run.duration_ms(), Some(2_000));
    assert_eq!(OverlapPolicy::from_name("skip"), Some(OverlapPolicy::Skip));
    assert_eq!(OverlapPolicy::from_name("later"), None);
    assert_eq!(OverlapPolicy::default(), OverlapPolicy::Delay);
}
