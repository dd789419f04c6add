use kron::error::KronError;
use kron::event::{Event, LogEntry};
use kron::log::{history, is_blank, replay, ParsedLine};
use kron::retry::RetryPolicy;
use kron::schedule::Schedule;
use kron::timer::{OverlapPolicy, RunId, TimerId, TimerSpec};
use kron::timestamp::Timestamp;

fn now() -> Timestamp {
    Timestamp::new(1_781_000_000, 0).unwrap()
}

fn spec(id: &str) -> TimerSpec {
    TimerSpec {
        id: TimerId::new(id),
        schedule: Schedule::Every { seconds: 60 },
        retry: RetryPolicy::no_retry(),
        timezone: "UTC".to_string(),
        created_at: now(),
        overlap: OverlapPolicy::default(),
    }
}

fn created(id: &str) -> ParsedLine<LogEntry> {
    ParsedLine::Value(LogEntry::at(Event::TimerCreated { spec: spec(id) }, now()))
}

fn broken(eof: bool) -> ParsedLine<LogEntry> {
    ParsedLine::Broken {
        eof,
        message: "not json".to_string(),
    }
}

#[test]
fn append_and_replay_round_trips_events() {
    let replayed = replay(vec![created("a"), created("b")], "kron.aof").unwrap();
    assert_eq!(replayed.len(), 2);
    assert_eq!(replayed[1].event.timer().as_str(), "b");
}

#[test]
fn replay_ignores_truncated_final_line() {
    let replayed = replay(vec![created("a"), broken(true)], "kron.aof").unwrap();
    assert_eq!(replayed.len(), 1);
}

#[test]
fn replay_rejects_corrupt_middle_line() {
    let err = replay(
        vec![created("a"), broken(false), created("b")],
        "kron.aof",
    )
    .unwrap_err();
    assert!(matches!(err, KronError::CorruptLog { line: 2, .. }));
    assert_eq!(
        err.message(),
        "corrupt log line 2 in kron.aof: not json".to_string()
    );
}

#[test]
fn blank_lines_count_but_do_not_matter() {
    assert!(is_blank(" \t"));
    assert!(!is_blank(" x"));
    let err = replay(
        vec![ParsedLine::Blank, created("a"), broken(false), created("b")],
        "kron.aof",
    )
    .unwrap_err();
    assert!(matches!(err, KronError::CorruptLog { line: 3, .. }));
    let replayed = replay(vec![ParsedLine::Blank, created("a")], "kron.aof").unwrap();
    assert_eq!(replayed.len(), 1);
}

#[test]
fn history_is_about_one_timer_and_ends_with_the_latest() {
    let run = RunId("run_1".to_string());
    let entries = vec![
        LogEntry::at(Event::TimerCreated { spec: spec("a") }, now()),
        LogEntry::at(Event::TimerCreated { spec: spec("b") }, now()),
        LogEntry::at(
            Event::RunDue {
                timer_id: TimerId::new("a"),
                run_id: run.clone(),
                scheduled_at: now(),
            },
            now(),
        ),
        LogEntry::at(
            Event::RunSkippedOverlap {
                timer_id: TimerId::new("a"),
                run_id: run,
                scheduled_at: now(),
                skipped_at: now(),
            },
            now(),
        ),
    ];
    assert_eq!(history(&entries, "a", None).len(), 3);
    assert_eq!(history(&entries, "b", None).len(), 1);
    assert_eq!(history(&entries, "c", None).len(), 0);
    let last = history(&entries, "a", Some(1));
    assert_eq!(last.len(), 1);
    assert!(matches!(last[0].event, Event::RunSkippedOverlap { .. }));
    assert_eq!(history(&entries, "a", Some(9)).len(), 3);
}

#[test]
fn entries_carry_their_version_and_time() {
    let before = chrono::Utc::now().timestamp();
    let entry = LogEntry::new(Event::TimerCreated { spec: spec("a") });
    assert_eq!(entry.v, 1);
    assert!(before <= entry.ts.secs());
}
