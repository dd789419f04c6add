//! The events that make up the history of an engine.

use vstd::prelude::*;

use crate::timer::{RunId, TimerId, TimerSpec, TimerSpecView};
use crate::timestamp::{TimeView, Timestamp};

verus! {

/// A change of state. The state of an engine is what its events, one after the other,
/// made of the empty state.
#[derive(Debug)]
pub enum Event {
    TimerCreated { spec: TimerSpec },
    TimerUpdated { spec: TimerSpec },
    TimerPaused { timer_id: TimerId, at: Timestamp },
    TimerResumed { timer_id: TimerId, at: Timestamp },
    TimerCancelled { timer_id: TimerId, at: Timestamp },
    RunDue { timer_id: TimerId, run_id: RunId, scheduled_at: Timestamp },
    RunStarted { timer_id: TimerId, run_id: RunId, started_at: Timestamp, attempt: u32 },
    RunSkippedOverlap {
        timer_id: TimerId,
        run_id: RunId,
        scheduled_at: Timestamp,
        skipped_at: Timestamp,
    },
    RunSucceeded { timer_id: TimerId, run_id: RunId, finished_at: Timestamp, duration_ms: u64 },
    RunFailed {
        timer_id: TimerId,
        run_id: RunId,
        finished_at: Timestamp,
        error: String,
        attempt: u32,
    },
    RunRetrying { timer_id: TimerId, run_id: RunId, attempt: u32, next_retry_at: Timestamp },
    RunDead { timer_id: TimerId, run_id: RunId, at: Timestamp },
}

/// An [`Event`] as a mathematical value.
pub enum EventView {
    TimerCreated { spec: TimerSpecView },
    TimerUpdated { spec: TimerSpecView },
    TimerPaused { timer_id: Seq<char>, at: TimeView },
    TimerResumed { timer_id: Seq<char>, at: TimeView },
    TimerCancelled { timer_id: Seq<char>, at: TimeView },
    RunDue { timer_id: Seq<char>, run_id: Seq<char>, scheduled_at: TimeView },
    RunStarted { timer_id: Seq<char>, run_id: Seq<char>, started_at: TimeView, attempt: u32 },
    RunSkippedOverlap {
        timer_id: Seq<char>,
        run_id: Seq<char>,
        scheduled_at: TimeView,
        skipped_at: TimeView,
    },
    RunSucceeded { timer_id: Seq<char>, run_id: Seq<char>, finished_at: TimeView, duration_ms: u64 },
    RunFailed {
        timer_id: Seq<char>,
        run_id: Seq<char>,
        finished_at: TimeView,
        error: Seq<char>,
        attempt: u32,
    },
    RunRetrying { timer_id: Seq<char>, run_id: Seq<char>, attempt: u32, next_retry_at: TimeView },
    RunDead { timer_id: Seq<char>, run_id: Seq<char>, at: TimeView },
}

impl View for Event {
    type V = EventView;

    open spec fn view(&self) -> EventView {
        match self {
            Event::TimerCreated { spec } => EventView::TimerCreated { spec: spec@ },
            Event::TimerUpdated { spec } => EventView::TimerUpdated { spec: spec@ },
            Event::TimerPaused { timer_id, at } => EventView::TimerPaused {
                timer_id: timer_id@,
                at: at@,
            },
            Event::TimerResumed { timer_id, at } => EventView::TimerResumed {
                timer_id: timer_id@,
                at: at@,
            },
            Event::TimerCancelled { timer_id, at } => EventView::TimerCancelled {
                timer_id: timer_id@,
                at: at@,
            },
            Event::RunDue { timer_id, run_id, scheduled_at } => EventView::RunDue {
                timer_id: timer_id@,
                run_id: run_id@,
                scheduled_at: scheduled_at@,
            },
            Event::RunStarted { timer_id, run_id, started_at, attempt } => EventView::RunStarted {
                timer_id: timer_id@,
                run_id: run_id@,
                started_at: started_at@,
                attempt: *attempt,
            },
            Event::RunSkippedOverlap { timer_id, run_id, scheduled_at, skipped_at } =>
            EventView::RunSkippedOverlap {
                timer_id: timer_id@,
                run_id: run_id@,
                scheduled_at: scheduled_at@,
                skipped_at: skipped_at@,
            },
            Event::RunSucceeded { timer_id, run_id, finished_at, duration_ms } =>
            EventView::RunSucceeded {
                timer_id: timer_id@,
                run_id: run_id@,
                finished_at: finished_at@,
                duration_ms: *duration_ms,
            },
            Event::RunFailed { timer_id, run_id, finished_at, error, attempt } =>
            EventView::RunFailed {
                timer_id: timer_id@,
                run_id: run_id@,
                finished_at: finished_at@,
                error: error@,
                attempt: *attempt,
            },
            Event::RunRetrying { timer_id, run_id, attempt, next_retry_at } =>
            EventView::RunRetrying {
                timer_id: timer_id@,
                run_id: run_id@,
                attempt: *attempt,
                next_retry_at: next_retry_at@,
            },
            Event::RunDead { timer_id, run_id, at } => EventView::RunDead {
                timer_id: timer_id@,
                run_id: run_id@,
                at: at@,
            },
        }
    }
}

impl DeepView for Event {
    type V = EventView;

    open spec fn deep_view(&self) -> EventView {
        self@
    }
}

impl EventView {
    /// The timer that the event is about.
    pub open spec fn timer(self) -> Seq<char> {
        match self {
            EventView::TimerCreated { spec } => spec.id,
            EventView::TimerUpdated { spec } => spec.id,
            EventView::TimerPaused { timer_id, .. } => timer_id,
            EventView::TimerResumed { timer_id, .. } => timer_id,
            EventView::TimerCancelled { timer_id, .. } => timer_id,
            EventView::RunDue { timer_id, .. } => timer_id,
            EventView::RunStarted { timer_id, .. } => timer_id,
            EventView::RunSkippedOverlap { timer_id, .. } => timer_id,
            EventView::RunSucceeded { timer_id, .. } => timer_id,
            EventView::RunFailed { timer_id, .. } => timer_id,
            EventView::RunRetrying { timer_id, .. } => timer_id,
            EventView::RunDead { timer_id, .. } => timer_id,
        }
    }
}

impl EventView {
    /// The run that the event is about, if it is about one.
    pub open spec fn run(self) -> Option<Seq<char>> {
        match self {
            EventView::RunDue { run_id, .. } => Some(run_id),
            EventView::RunStarted { run_id, .. } => Some(run_id),
            EventView::RunSkippedOverlap { run_id, .. } => Some(run_id),
            EventView::RunSucceeded { run_id, .. } => Some(run_id),
            EventView::RunFailed { run_id, .. } => Some(run_id),
            EventView::RunRetrying { run_id, .. } => Some(run_id),
            EventView::RunDead { run_id, .. } => Some(run_id),
            _ => None,
        }
    }
}

impl Event {
    /// The timer that the event is about.
    pub fn timer(&self) -> (r: &TimerId)
        ensures
            r@ == self@.timer(),
    {
        match self {
            Event::TimerCreated { spec } => &spec.id,
            Event::TimerUpdated { spec } => &spec.id,
            Event::TimerPaused { timer_id, .. } => timer_id,
            Event::TimerResumed { timer_id, .. } => timer_id,
            Event::TimerCancelled { timer_id, .. } => timer_id,
            Event::RunDue { timer_id, .. } => timer_id,
            Event::RunStarted { timer_id, .. } => timer_id,
            Event::RunSkippedOverlap { timer_id, .. } => timer_id,
            Event::RunSucceeded { timer_id, .. } => timer_id,
            Event::RunFailed { timer_id, .. } => timer_id,
            Event::RunRetrying { timer_id, .. } => timer_id,
            Event::RunDead { timer_id, .. } => timer_id,
        }
    }
}

impl Clone for Event {
    fn clone(&self) -> (r: Self)
        ensures
            r@ == self@,
    {
        match self {
            Event::TimerCreated { spec } => Event::TimerCreated { spec: spec.clone() },
            Event::TimerUpdated { spec } => Event::TimerUpdated { spec: spec.clone() },
            Event::TimerPaused { timer_id, at } => Event::TimerPaused {
                timer_id: timer_id.clone(),
                at: *at,
            },
            Event::TimerResumed { timer_id, at } => Event::TimerResumed {
                timer_id: timer_id.clone(),
                at: *at,
            },
            Event::TimerCancelled { timer_id, at } => Event::TimerCancelled {
                timer_id: timer_id.clone(),
                at: *at,
            },
            Event::RunDue { timer_id, run_id, scheduled_at } => Event::RunDue {
                timer_id: timer_id.clone(),
                run_id: run_id.clone(),
                scheduled_at: *scheduled_at,
            },
            Event::RunStarted { timer_id, run_id, started_at, attempt } => Event::RunStarted {
                timer_id: timer_id.clone(),
                run_id: run_id.clone(),
                started_at: *started_at,
                attempt: *attempt,
            },
            Event::RunSkippedOverlap { timer_id, run_id, scheduled_at, skipped_at } =>
            Event::RunSkippedOverlap {
                timer_id: timer_id.clone(),
                run_id: run_id.clone(),
                scheduled_at: *scheduled_at,
                skipped_at: *skipped_at,
            },
            Event::RunSucceeded { timer_id, run_id, finished_at, duration_ms } =>
            Event::RunSucceeded {
                timer_id: timer_id.clone(),
                run_id: run_id.clone(),
                finished_at: *finished_at,
                duration_ms: *duration_ms,
            },
            Event::RunFailed { timer_id, run_id, finished_at, error, attempt } =>
            Event::RunFailed {
                timer_id: timer_id.clone(),
                run_id: run_id.clone(),
                finished_at: *finished_at,
                error: error.clone(),
                attempt: *attempt,
            },
            Event::RunRetrying { timer_id, run_id, attempt, next_retry_at } =>
            Event::RunRetrying {
                timer_id: timer_id.clone(),
                run_id: run_id.clone(),
                attempt: *attempt,
                next_retry_at: *next_retry_at,
            },
            Event::RunDead { timer_id, run_id, at } => Event::RunDead {
                timer_id: timer_id.clone(),
                run_id: run_id.clone(),
                at: *at,
            },
        }
    }
}

/// What is written to one line of the log.
#[derive(Debug)]
pub struct LogEntry {
    /// The version of the format.
    pub v: u8,
    pub ts: Timestamp,
    pub event: Event,
}

/// A [`LogEntry`] as a mathematical value.
pub struct LogEntryView {
    pub v: u8,
    pub ts: TimeView,
    pub event: EventView,
}

impl View for LogEntry {
    type V = LogEntryView;

    open spec fn view(&self) -> LogEntryView {
        LogEntryView { v: self.v, ts: self.ts@, event: self.event@ }
    }
}

impl DeepView for LogEntry {
    type V = LogEntryView;

    open spec fn deep_view(&self) -> LogEntryView {
        self@
    }
}

impl Clone for LogEntry {
    fn clone(&self) -> (r: Self)
        ensures
            r@ == self@,
    {
        LogEntry { v: self.v, ts: self.ts, event: self.event.clone() }
    }
}

impl LogEntry {
    /// The entry of an event that is written at the given time.
    pub fn at(event: Event, ts: Timestamp) -> (r: Self)
        ensures
            r@ == (LogEntryView { v: 1, ts: ts@, event: event@ }),
    {
        LogEntry { v: 1, ts, event }
    }

    /// The entry of an event that is written now.
    pub fn new(event: Event) -> (r: Self)
        ensures
            r@.v == 1,
            r@.event == event@,
    {
        LogEntry::at(event, crate::timestamp::utc_now())
    }
}

} // verus!
