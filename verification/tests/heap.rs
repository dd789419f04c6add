use chrono::{TimeZone, Utc};
use kron::heap::{ScheduledTimer, TimerHeap};
use kron::timer::TimerId;
use kron::timestamp::Timestamp;

fn dt(h: u32, m: u32) -> Timestamp {
    let t = Utc.with_ymd_and_hms(2026, 6, 10, h, m, 0).unwrap();
    Timestamp::new(t.timestamp(), 0).unwrap()
}

fn entry(id: &str, next_run_at: Timestamp) -> ScheduledTimer {
    ScheduledTimer {
        timer_id: TimerId::new(id),
        next_run_at,
        run_id: None,
        attempt: 1,
    }
}

#[test]
fn pops_in_chronological_order() {
    let mut heap = TimerHeap::new();
    heap.push(entry("b", dt(9, 0)));
    heap.push(entry("a", dt(8, 0)));
    heap.push(entry("c", dt(10, 0)));

    let due = heap.pop_due(dt(9, 30));
    assert_eq!(due.len(), 2);
    assert_eq!(due[0].timer_id, TimerId::new("a"));
    assert_eq!(due[1].timer_id, TimerId::new("b"));
    assert_eq!(heap.len(), 1);
}

#[test]
fn remove_timer_cleans_up() {
    let mut heap = TimerHeap::new();
    heap.push(entry("x", dt(8, 0)));
    heap.push(entry("y", dt(9, 0)));
    heap.remove_timer(&TimerId::new("x"));
    assert_eq!(heap.len(), 1);
    let due = heap.pop_due(dt(10, 0));
    assert_eq!(due[0].timer_id, TimerId::new("y"));
}

#[test]
fn the_next_run_is_the_nearest() {
    let mut heap = TimerHeap::new();
    assert_eq!(heap.peek_next_at(), None);
    assert!(heap.is_empty());
    heap.push(entry("late", dt(12, 0)));
    heap.push(entry("soon", dt(7, 15)));
    assert_eq!(heap.peek_next_at(), Some(dt(7, 15)));
    assert_eq!(heap.pop_due(dt(7, 15)).len(), 1);
    assert_eq!(heap.peek_next_at(), Some(dt(12, 0)));
}

#[test]
fn a_timer_may_stand_in_the_heap_twice() {
    let mut heap = TimerHeap::new();
    heap.push(entry("x", dt(8, 0)));
    heap.push(entry("x", dt(8, 30)));
    assert_eq!(heap.len(), 2);
    heap.remove_timer(&TimerId::new("x"));
    assert!(heap.is_empty());
}
