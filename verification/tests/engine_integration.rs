use kron::engine::{
    missing_function_reason, panic_reason, CallResult, CallTarget, Engine, FnTimer, RunProgress, RunStep,
    ShutdownStep, TimerFn,
};
use kron::error::KronError;
use kron::event::{Event, LogEntry};
use kron::heap::ScheduledTimer;
use kron::ipc::{self, IpcReply, IpcRequest};
use kron::retry::{BackoffStrategy, RetryPolicy};
use kron::schedule::Schedule;
use kron::snapshot::{compact, compact_read_only, load_state, plan_load, CompactStep, LoadPlan, Snapshot};
use kron::state::EngineState;
use kron::timer::{OverlapPolicy, RunId, TimerId, TimerState};
use kron::timestamp::Timestamp;

/// A data directory in memory: a snapshot and a log of entries, each one byte long.
#[derive(Default)]
struct Disk {
    snapshot: Option<(EngineState, u64)>,
    aof: Vec<LogEntry>,
    old: Option<Vec<LogEntry>>,
}

fn copy_state(state: &EngineState) -> EngineState {
    Snapshot::from_state_at(state, 0, start()).into_state().unwrap()
}

impl Disk {
    fn recover(&self) -> EngineState {
        match &self.snapshot {
            None => load_state(None, &self.aof).unwrap(),
            Some((state, offset)) => {
                let plan =
                    plan_load(*offset, self.aof.len() as u64, self.old.is_some(), "dir").unwrap();
                let entries: Vec<LogEntry> = match plan {
                    LoadPlan::Tail { offset } => self.aof[offset as usize..].to_vec(),
                    LoadPlan::OldTailThenWhole { offset } => {
                        let mut entries = self.old.as_ref().unwrap()[offset as usize..].to_vec();
                        entries.extend(self.aof.iter().cloned());
                        entries
                    }
                };
                let snapshot = Snapshot::from_state_at(state, *offset, start());
                load_state(Some(snapshot), &entries).unwrap()
            }
        }
    }

    fn do_step(&mut self, step: &CompactStep, state: &EngineState) {
        match step {
            CompactStep::WriteSnapshot { offset } => {
                self.snapshot = Some((copy_state(state), *offset));
            }
            CompactStep::RemoveOld => self.old = None,
            CompactStep::PutAside => self.old = Some(std::mem::take(&mut self.aof)),
            CompactStep::BeginLog => self.aof = Vec::new(),
        }
    }
}

/// An engine with a disk, functions and a clock that the test moves.
struct Rig {
    engine: Engine,
    disk: Disk,
    now: Timestamp,
    broken_disk: bool,
}

fn start() -> Timestamp {
    Timestamp::new(1_781_000_000, 0).unwrap()
}

impl Rig {
    fn open(disk: Disk) -> Rig {
        let state = disk.recover();
        Rig {
            engine: Engine::open("dir", state),
            disk,
            now: start(),
            broken_disk: false,
        }
    }

    fn append(&mut self, event: &Event) -> bool {
        if self.broken_disk {
            return false;
        }
        self.disk.aof.push(LogEntry::at(event.clone(), self.now));
        true
    }

    fn schedule(&mut self, id: &str, schedule: Schedule, function: &str, retry: Option<RetryPolicy>) {
        self.schedule_with(id, schedule, function, retry, None);
    }

    fn schedule_with(
        &mut self,
        id: &str,
        schedule: Schedule,
        function: &str,
        retry: Option<RetryPolicy>,
        overlap: Option<OverlapPolicy>,
    ) {
        let event = self
            .engine
            .schedule_with_overlap(id, schedule, retry, None, overlap, self.now)
            .unwrap();
        if let Some(event) = &event {
            assert!(self.append(event));
        }
        self.engine
            .register(&TimerId::new(id), function.to_string(), event, self.now);
    }

    fn advance(&mut self, seconds: i64) {
        self.now = self.now.plus(seconds).unwrap();
    }

    fn due(&mut self) -> Vec<ScheduledTimer> {
        match self.engine.take_due(self.now) {
            Some((due, _)) => due,
            None => Vec::new(),
        }
    }

    /// Starts a run; its name if it is to be carried out.
    fn begin(&mut self, scheduled: &ScheduledTimer) -> Option<(RunId, Timestamp)> {
        if !self.engine.begin_run() {
            return None;
        }
        let (started, _) = self.engine.take_up(scheduled, RunId::new(), self.now);
        let (events, skipped) = (started.events.len(), started.skipped);
        let mut step = RunProgress::TakenUp { events, skipped }.next_step();
        loop {
            match step {
                RunStep::WriteStart { index } => {
                    let event = &started.events[index];
                    let written = self.append(event);
                    self.engine.record(event, written, self.now);
                    step = RunProgress::StartWritten { index, events, skipped, written }.next_step();
                }
                RunStep::Finish { counted } => {
                    self.engine.finish_run(&scheduled.timer_id, counted);
                    return None;
                }
                other => {
                    assert_eq!(other, RunStep::LookUp);
                    return Some((started.run_id, started.started_at));
                }
            }
        }
    }

    fn end(&mut self, timer: &TimerId, run: (RunId, Timestamp), result: CallResult) {
        let spec = self.engine.state.specs.get(timer.as_str()).unwrap().clone();
        let end = self.engine.end_run(&spec, &run.0, run.1, result, self.now);
        let events = end.events.len();
        let mut follow_up = Some(end.follow_up);
        let mut step = RunProgress::Ended { events }.next_step();
        loop {
            match step {
                RunStep::WriteEnd { index } => {
                    let event = &end.events[index];
                    let written = self.append(event);
                    self.engine.record(event, written, self.now);
                    step = RunProgress::EndWritten { index, events, written }.next_step();
                }
                RunStep::Settle => {
                    self.engine.settle(&spec, &run.0, follow_up.take().unwrap(), self.now);
                    step = RunProgress::Settled.next_step();
                }
                other => {
                    assert_eq!(other, RunStep::Finish { counted: true });
                    self.engine.finish_run(timer, true);
                    return;
                }
            }
        }
    }

    /// Carries out what is due with a function, and tells how often it was called.
    fn run_due<F: TimerFn>(&mut self, function: &F) -> usize {
        let mut calls = 0;
        for scheduled in self.due() {
            if let Some(run) = self.begin(&scheduled) {
                let result = match self.engine.target(&scheduled.timer_id) {
                    CallTarget::Registered => {
                        calls += 1;
                        match function.call(&scheduled.timer_id, &run.0) {
                            Ok(()) => CallResult::Succeeded,
                            Err(error) => CallResult::Failed(error),
                        }
                    }
                    _ => CallResult::Missing,
                };
                self.end(&scheduled.timer_id, run, result);
            }
        }
        calls
    }

    fn compact(&mut self) {
        for step in compact(Some(self.disk.aof.len() as u64)) {
            self.disk.do_step(&step, &self.engine.state);
        }
    }
}

fn ok() -> FnTimer<impl Fn(&TimerId, &RunId) -> Result<(), String>> {
    FnTimer::new("ok", |_: &TimerId, _: &RunId| Ok(()))
}

fn in_seconds(rig: &Rig, seconds: i64) -> Schedule {
    Schedule::At {
        at: rig.now.plus(seconds).unwrap(),
    }
}

#[test]
fn one_shot_timer_runs_and_writes_consistent_run_id() {
    let mut rig = Rig::open(Disk::default());
    let schedule = in_seconds(&rig, 1);
    rig.schedule("once", schedule, "once_fn", Some(RetryPolicy::no_retry()));
    rig.engine.start().unwrap();
    rig.advance(1);
    assert_eq!(rig.run_due(&ok()), 1);

    let summary = rig.engine.status("once").unwrap();
    assert_eq!(summary.state, TimerState::Scheduled);
    assert_eq!(summary.last_status.as_deref(), Some("OK"));
    assert_eq!(summary.next_run_at, None);

    let run_ids: Vec<RunId> = rig
        .disk
        .aof
        .iter()
        .filter_map(|entry| match &entry.event {
            Event::RunDue { run_id, .. }
            | Event::RunStarted { run_id, .. }
            | Event::RunSucceeded { run_id, .. } => Some(run_id.clone()),
            _ => None,
        })
        .collect();
    assert_eq!(run_ids.len(), 3);
    assert!(run_ids.iter().all(|id| id == &run_ids[0]));
}

#[test]
fn timer_metadata_survives_reopen_as_orphaned_until_function_is_registered() {
    let mut rig = Rig::open(Disk::default());
    rig.schedule("persisted", Schedule::Every { seconds: 60 }, "persisted_fn", None);

    let mut reopened = Rig::open(rig.disk);
    let orphaned = reopened.engine.status("persisted").unwrap();
    assert_eq!(orphaned.state, TimerState::Orphaned);
    assert_eq!(orphaned.fn_name, None);

    reopened.schedule("persisted", Schedule::Every { seconds: 60 }, "persisted_fn", None);
    let registered = reopened.engine.status("persisted").unwrap();
    assert_eq!(registered.state, TimerState::Scheduled);
    assert_eq!(registered.fn_name.as_deref(), Some("persisted_fn"));
    assert_eq!(reopened.disk.aof.len(), 1);
}

#[test]
fn crash_before_due_time_recovers_timer_metadata() {
    let mut rig = Rig::open(Disk::default());
    let schedule = in_seconds(&rig, 60);
    rig.schedule("recover_me", schedule, "recover_fn", Some(RetryPolicy::no_retry()));

    let mut reopened = Rig::open(rig.disk);
    let summary = reopened.engine.status("recover_me").unwrap();
    assert_eq!(summary.state, TimerState::Orphaned);
    assert!(summary.next_run_at.is_none());

    let schedule = in_seconds(&reopened, 1);
    reopened.schedule("recover_me", schedule, "recover_fn", Some(RetryPolicy::no_retry()));
    reopened.engine.start().unwrap();
    reopened.advance(1);
    assert_eq!(reopened.run_due(&ok()), 1);
}

#[test]
fn double_start_returns_error() {
    let mut rig = Rig::open(Disk::default());
    rig.engine.start().unwrap();
    let err = rig.engine.start().unwrap_err();
    assert!(matches!(err, KronError::AlreadyStarted));
    assert_eq!(rig.engine.shutdown(), ShutdownStep::Wait);
    assert!(rig.engine.is_idle());
    rig.engine.end_shutdown(true, 1_000).unwrap();
}

#[test]
fn shutdown_stops_future_runs() {
    let mut rig = Rig::open(Disk::default());
    let schedule = in_seconds(&rig, 1);
    rig.schedule("future", schedule, "future_fn", Some(RetryPolicy::no_retry()));
    rig.engine.start().unwrap();
    assert_eq!(rig.engine.shutdown(), ShutdownStep::Wait);
    rig.engine.end_shutdown(true, 1_000).unwrap();
    rig.advance(2);
    assert_eq!(rig.run_due(&ok()), 0);
    assert!(matches!(
        rig.engine.start().unwrap_err(),
        KronError::AlreadyStopped
    ));
}

#[test]
fn skip_overlap_records_skipped_run_while_previous_run_is_active() {
    let mut rig = Rig::open(Disk::default());
    rig.schedule_with(
        "non_overlapping",
        Schedule::Every { seconds: 1 },
        "non_overlapping_fn",
        Some(RetryPolicy::no_retry()),
        Some(OverlapPolicy::Skip),
    );
    rig.engine.start().unwrap();
    rig.advance(1);
    let due = rig.due();
    assert_eq!(due.len(), 1);
    let run = rig.begin(&due[0]).unwrap();
    rig.advance(1);
    let due = rig.due();
    assert_eq!(due.len(), 1);
    assert!(rig.begin(&due[0]).is_none());
    assert!(rig
        .disk
        .aof
        .iter()
        .any(|entry| matches!(entry.event, Event::RunSkippedOverlap { .. })));
    rig.end(&TimerId::new("non_overlapping"), run, CallResult::Succeeded);
    assert!(rig.engine.is_idle());
    rig.advance(1);
    let due = rig.due();
    assert!(rig.begin(&due[0]).is_some());
}

#[test]
fn allow_overlap_can_run_same_timer_concurrently() {
    let mut rig = Rig::open(Disk::default());
    rig.schedule_with(
        "overlapping",
        Schedule::Every { seconds: 1 },
        "overlapping_fn",
        Some(RetryPolicy::no_retry()),
        Some(OverlapPolicy::Allow),
    );
    rig.engine.start().unwrap();
    let mut active = 0;
    for _ in 0..2 {
        rig.advance(1);
        for scheduled in rig.due() {
            assert!(rig.begin(&scheduled).is_some());
            active += 1;
        }
    }
    assert!(active >= 2);
    assert!(!rig.engine.is_idle());
}

#[test]
fn delayed_timers_wait_for_the_end_of_the_run() {
    let mut rig = Rig::open(Disk::default());
    rig.schedule("delayed", Schedule::Every { seconds: 10 }, "f", None);
    rig.engine.start().unwrap();
    rig.advance(10);
    let due = rig.due();
    let run = rig.begin(&due[0]).unwrap();
    rig.advance(100);
    assert!(rig.due().is_empty());
    rig.end(&TimerId::new("delayed"), run, CallResult::Succeeded);
    assert_eq!(
        rig.engine.status("delayed").unwrap().next_run_at,
        rig.now.plus(10)
    );
}

#[test]
fn shutdown_waits_for_running_job() {
    let mut rig = Rig::open(Disk::default());
    let schedule = in_seconds(&rig, 1);
    rig.schedule("slow", schedule, "slow_fn", Some(RetryPolicy::no_retry()));
    rig.engine.start().unwrap();
    rig.advance(1);
    let due = rig.due();
    let run = rig.begin(&due[0]).unwrap();
    assert_eq!(rig.engine.shutdown(), ShutdownStep::Wait);
    assert!(!rig.engine.is_idle());
    rig.end(&TimerId::new("slow"), run, CallResult::Succeeded);
    assert!(rig.engine.is_idle());
    rig.engine.end_shutdown(true, 1_000).unwrap();
    let summary = rig.engine.status("slow").unwrap();
    assert_eq!(summary.last_status.as_deref(), Some("OK"));
}

#[test]
fn shutdown_timeout_when_job_keeps_running() {
    let mut rig = Rig::open(Disk::default());
    let schedule = in_seconds(&rig, 1);
    rig.schedule("too_slow", schedule, "too_slow_fn", Some(RetryPolicy::no_retry()));
    rig.engine.start().unwrap();
    rig.advance(1);
    let due = rig.due();
    rig.begin(&due[0]).unwrap();
    assert_eq!(rig.engine.shutdown(), ShutdownStep::Wait);
    let idle = rig.engine.is_idle();
    let err = rig.engine.end_shutdown(idle, 20).unwrap_err();
    assert!(matches!(err, KronError::ShutdownTimeout { timeout_ms: 20 }));
}

#[test]
fn schedule_after_start_wakes_scheduler() {
    let mut rig = Rig::open(Disk::default());
    rig.engine.start().unwrap();
    let schedule = in_seconds(&rig, 1);
    let event = rig
        .engine
        .schedule("late_add", schedule, None, None, rig.now)
        .unwrap();
    assert!(rig.append(event.as_ref().unwrap()));
    assert!(rig
        .engine
        .register(&TimerId::new("late_add"), "late_add_fn".to_string(), event, rig.now));
    rig.advance(1);
    assert_eq!(rig.run_due(&ok()), 1);
}

#[test]
fn compaction_writes_snapshot_and_preserves_status_after_reopen() {
    let mut rig = Rig::open(Disk::default());
    let schedule = in_seconds(&rig, 1);
    rig.schedule("compact_me", schedule, "compact_fn", Some(RetryPolicy::no_retry()));
    rig.engine.start().unwrap();
    rig.advance(1);
    assert_eq!(rig.run_due(&ok()), 1);
    rig.compact();
    assert!(rig.disk.snapshot.is_some());
    assert!(rig.disk.old.is_some());

    let reopened = Rig::open(rig.disk);
    let summary = reopened.engine.status("compact_me").unwrap();
    assert_eq!(summary.state, TimerState::Orphaned);
    assert_eq!(summary.last_status.as_deref(), Some("OK"));
}

#[test]
fn ipc_status_and_compact_work_with_active_runtime() {
    let mut rig = Rig::open(Disk::default());
    rig.schedule("ipc_timer", Schedule::Every { seconds: 60 }, "ipc_fn", None);
    rig.engine.start().unwrap();
    let ask = |inner: IpcRequest| ipc::with_token("secret".to_string(), inner);
    let reply = ipc::serve(
        &rig.engine,
        ask(IpcRequest::Status { name: "ipc_timer".into() }),
        "secret",
    )
    .unwrap();
    assert!(matches!(reply, IpcReply::Status(Some(_))));
    let reply = ipc::serve(&rig.engine, ask(IpcRequest::Compact), "secret").unwrap();
    assert!(matches!(reply, IpcReply::Compact));
    rig.compact();
    assert!(rig.disk.snapshot.is_some());
}

#[test]
fn ipc_tcp_fallback_uses_token_and_rejects_bad_token() {
    let mut rig = Rig::open(Disk::default());
    rig.schedule("tcp_timer", Schedule::Every { seconds: 60 }, "tcp_fn", None);
    rig.engine.start().unwrap();
    let serve = |request: IpcRequest| ipc::serve(&rig.engine, request, "secret");
    let good = ipc::with_token("secret".to_string(), IpcRequest::List);
    match serve(good).unwrap() {
        IpcReply::Timers(timers) => assert_eq!(timers.len(), 1),
        other => panic!("unexpected reply {other:?}"),
    }
    let bad = ipc::with_token("bad".to_string(), IpcRequest::List);
    assert_eq!(serve(bad).unwrap_err(), "invalid IPC token");
    assert_eq!(serve(IpcRequest::List).unwrap_err(), "missing IPC token");
    let nested = ipc::with_token(
        "secret".to_string(),
        ipc::with_token("secret".to_string(), IpcRequest::List),
    );
    assert_eq!(
        serve(nested).unwrap_err(),
        "IPC unavailable: nested auth request is invalid"
    );
    let doctor = ipc::with_token("secret".to_string(), IpcRequest::Doctor);
    match serve(doctor).unwrap() {
        IpcReply::Runtime(info) => {
            assert_eq!(info.data_dir, "dir");
            assert_eq!(info.lock_path, "dir/kron.lock");
            assert_eq!(info.socket_path, "dir/kron.sock");
            assert_eq!(info.timers, 1);
        }
        other => panic!("unexpected reply {other:?}"),
    }
}

#[test]
fn snapshot_replays_new_aof_tail_after_compaction() {
    let mut rig = Rig::open(Disk::default());
    rig.schedule("before_compact", Schedule::Every { seconds: 60 }, "before_fn", None);
    rig.compact();
    rig.schedule("after_compact", Schedule::Every { seconds: 120 }, "after_fn", None);

    let reopened = Rig::open(rig.disk);
    assert!(reopened.engine.status("before_compact").is_some());
    assert!(reopened.engine.status("after_compact").is_some());
}

#[test]
fn snapshot_with_old_aof_offset_recovers_after_interrupted_rotation() {
    let mut rig = Rig::open(Disk::default());
    rig.schedule(
        "before_interrupted_compact",
        Schedule::Every { seconds: 60 },
        "before_fn",
        None,
    );
    assert_eq!(
        rig.engine.status("before_interrupted_compact").unwrap().state,
        TimerState::Scheduled
    );
    let steps = compact(Some(rig.disk.aof.len() as u64));
    for done in 0..=steps.len() {
        let mut disk = Disk {
            snapshot: None,
            aof: rig.disk.aof.clone(),
            old: None,
        };
        for step in &steps[..done] {
            disk.do_step(step, &rig.engine.state);
        }
        let reopened = Rig::open(disk);
        assert!(reopened.engine.status("before_interrupted_compact").is_some());
    }
}

#[test]
fn a_snapshot_ahead_of_both_logs_is_refused() {
    assert!(matches!(
        plan_load(5, 2, false, "dir").unwrap_err(),
        KronError::InvalidSnapshot(_)
    ));
    assert_eq!(
        plan_load(5, 2, false, "dir").unwrap_err().message(),
        "invalid snapshot: snapshot points to AOF offset 5, but dir/kron.aof is shorter and dir/kron.aof.old is missing"
    );
}

#[test]
fn snapshots_of_other_versions_are_refused() {
    let state = EngineState::new();
    let mut snapshot = Snapshot::from_state(&state, 0);
    snapshot.v = 9;
    assert_eq!(
        snapshot.into_state().err().unwrap().message(),
        "invalid snapshot: unsupported snapshot version 9"
    );
    let mut snapshot = Snapshot::from_state(&state, 0);
    snapshot.format_version = 4;
    assert_eq!(
        snapshot.into_state().err().unwrap().message(),
        "invalid snapshot: unsupported storage format version 4"
    );
}

#[test]
fn a_log_can_be_compacted_without_an_engine() {
    let mut rig = Rig::open(Disk::default());
    rig.schedule("kept", Schedule::Every { seconds: 60 }, "f", None);
    let (state, steps) = compact_read_only(None, &rig.disk.aof, Some(1)).ok().unwrap();
    assert_eq!(state.specs.len(), 1);
    assert_eq!(steps.len(), 5);
    assert_eq!(compact(None).len(), 3);
}

#[test]
fn failed_run_retries_with_same_run_id_and_eventually_succeeds() {
    let mut rig = Rig::open(Disk::default());
    let schedule = in_seconds(&rig, 1);
    rig.schedule(
        "flaky",
        schedule,
        "flaky_fn",
        Some(RetryPolicy {
            max_attempts: 2,
            backoff: BackoffStrategy::Fixed { seconds: 0 },
        }),
    );
    rig.engine.start().unwrap();
    rig.advance(1);
    let failing = FnTimer::new("flaky_fn", |_: &TimerId, _: &RunId| {
        Err("first failure".to_string())
    });
    assert_eq!(rig.run_due(&failing), 1);
    assert_eq!(rig.engine.status("flaky").unwrap().state, TimerState::Retrying);
    assert_eq!(rig.run_due(&ok()), 1);

    let summary = rig.engine.status("flaky").unwrap();
    assert_eq!(summary.last_status.as_deref(), Some("OK"));
    assert_eq!(summary.retries_last_7d, 1);

    let failed_run = rig.disk.aof.iter().find_map(|entry| match &entry.event {
        Event::RunFailed { run_id, .. } => Some(run_id.clone()),
        _ => None,
    });
    let retry_run = rig.disk.aof.iter().find_map(|entry| match &entry.event {
        Event::RunRetrying { run_id, .. } => Some(run_id.clone()),
        _ => None,
    });
    assert!(failed_run.is_some());
    assert_eq!(failed_run, retry_run);
}

#[test]
fn the_last_attempt_ends_a_run() {
    let mut rig = Rig::open(Disk::default());
    rig.schedule(
        "doomed",
        Schedule::Every { seconds: 5 },
        "f",
        Some(RetryPolicy::no_retry()),
    );
    rig.engine.start().unwrap();
    rig.advance(5);
    let failing = FnTimer::new("f", |_: &TimerId, _: &RunId| Err("no".to_string()));
    assert_eq!(rig.run_due(&failing), 1);
    assert!(rig
        .disk
        .aof
        .iter()
        .any(|entry| matches!(entry.event, Event::RunDead { .. })));
    assert_eq!(rig.engine.status("doomed").unwrap().next_run_at, rig.now.plus(5));
}

#[test]
fn stress_many_due_timers_all_execute_once() {
    let mut rig = Rig::open(Disk::default());
    let count = 100;
    for idx in 0..count {
        let schedule = in_seconds(&rig, 1);
        rig.schedule(
            &format!("stress_{idx}"),
            schedule,
            &format!("stress_fn_{idx}"),
            Some(RetryPolicy::no_retry()),
        );
    }
    rig.engine.start().unwrap();
    rig.advance(1);
    assert_eq!(rig.run_due(&ok()), count);
    assert_eq!(rig.run_due(&ok()), 0);
    let succeeded = rig
        .disk
        .aof
        .iter()
        .filter(|entry| matches!(entry.event, Event::RunSucceeded { .. }))
        .count();
    assert_eq!(succeeded, count);
}

#[test]
fn stress_one_thousand_due_timers_all_execute_once() {
    let mut rig = Rig::open(Disk::default());
    let count = 1000;
    for idx in 0..count {
        let schedule = in_seconds(&rig, 1);
        rig.schedule(
            &format!("heavy_{idx}"),
            schedule,
            &format!("heavy_fn_{idx}"),
            Some(RetryPolicy::no_retry()),
        );
    }
    rig.engine.start().unwrap();
    rig.advance(1);
    assert_eq!(rig.run_due(&ok()), count);
    assert_eq!(rig.run_due(&ok()), 0);
}

#[test]
fn a_failed_write_stops_the_engine() {
    let mut rig = Rig::open(Disk::default());
    let schedule = in_seconds(&rig, 1);
    rig.schedule("t", schedule, "f", None);
    rig.engine.start().unwrap();
    rig.advance(1);
    rig.broken_disk = true;
    assert_eq!(rig.run_due(&ok()), 0);
    assert!(rig.engine.take_due(rig.now).is_none());
    assert!(matches!(
        rig.engine
            .schedule("u", Schedule::Every { seconds: 1 }, None, None, rig.now)
            .unwrap_err(),
        KronError::AlreadyStopped
    ));
    assert!(rig.engine.is_idle());
}

#[test]
fn a_timer_without_a_function_is_orphaned() {
    let mut rig = Rig::open(Disk::default());
    rig.schedule("t", Schedule::Every { seconds: 1 }, "f", None);
    rig.engine.start().unwrap();
    rig.engine.state.fn_names.remove("t");
    rig.advance(1);
    assert_eq!(rig.engine.target(&TimerId::new("t")), CallTarget::Missing);
    assert_eq!(rig.engine.target(&TimerId::new("u")), CallTarget::Unknown);
    assert_eq!(rig.run_due(&ok()), 0);
    assert_eq!(rig.engine.status("t").unwrap().state, TimerState::Orphaned);
    assert_eq!(missing_function_reason(), "function not registered (orphaned)");
    assert_eq!(panic_reason("boom"), "task panicked: boom");
}

#[test]
fn changed_timers_are_written_and_unchanged_ones_are_not() {
    let mut rig = Rig::open(Disk::default());
    rig.schedule("t", Schedule::Every { seconds: 60 }, "f", None);
    rig.schedule("t", Schedule::Every { seconds: 60 }, "g", None);
    assert_eq!(rig.disk.aof.len(), 1);
    rig.schedule("t", Schedule::Every { seconds: 30 }, "g", None);
    assert_eq!(rig.disk.aof.len(), 2);
    assert!(matches!(rig.disk.aof[1].event, Event::TimerUpdated { .. }));
    assert_eq!(rig.engine.heap.len(), 1);
    assert_eq!(rig.engine.list().len(), 1);
    assert_eq!(rig.engine.data_dir(), "dir");
    assert!(rig.engine.lock_path().ends_with("kron.lock"));
}

#[test]
fn functions_have_names_and_are_called() {
    let echo = FnTimer::new("echo", |timer: &TimerId, run: &RunId| {
        Err(format!("{}/{}", timer.as_str(), run.0))
    });
    assert_eq!(TimerFn::name(&echo), "echo");
    assert_eq!(
        echo.call(&TimerId::new("t"), &RunId("r".to_string())),
        Err("t/r".to_string())
    );
}

#[test]
fn an_engine_that_was_not_started_shuts_down_at_once() {
    let mut rig = Rig::open(Disk::default());
    assert_eq!(rig.engine.shutdown(), ShutdownStep::Done);
    assert!(matches!(rig.engine.start().unwrap_err(), KronError::AlreadyStopped));
}

#[test]
fn paused_resumed_and_cancelled_timers() {
    let mut rig = Rig::open(Disk::default());
    rig.schedule("t", Schedule::Every { seconds: 60 }, "f", None);
    let now = rig.now;
    let id = TimerId::new("t");
    let record = |rig: &mut Rig, event: Event| {
        assert!(rig.append(&event));
        assert!(rig.engine.record(&event, true, now));
    };
    record(&mut rig, Event::TimerPaused { timer_id: id.clone(), at: now });
    assert_eq!(rig.engine.status("t").unwrap().state, TimerState::Paused);
    record(&mut rig, Event::TimerResumed { timer_id: id.clone(), at: now });
    assert_eq!(rig.engine.status("t").unwrap().state, TimerState::Scheduled);
    record(&mut rig, Event::TimerCancelled { timer_id: id, at: now });
    assert_eq!(rig.engine.status("t").unwrap().state, TimerState::Cancelled);
    let reopened = Rig::open(rig.disk);
    assert_eq!(reopened.engine.status("t").unwrap().state, TimerState::Orphaned);
}

#[test]
fn a_run_goes_from_step_to_step() {
    let skipped = false;
    assert_eq!(
        RunProgress::TakenUp { events: 2, skipped }.next_step(),
        RunStep::WriteStart { index: 0 }
    );
    assert_eq!(
        RunProgress::StartWritten { index: 0, events: 2, skipped, written: true }.next_step(),
        RunStep::WriteStart { index: 1 }
    );
    assert_eq!(
        RunProgress::StartWritten { index: 1, events: 2, skipped, written: true }.next_step(),
        RunStep::LookUp
    );
    assert_eq!(
        RunProgress::StartWritten { index: 0, events: 1, skipped: true, written: true }.next_step(),
        RunStep::Finish { counted: false }
    );
    assert_eq!(
        RunProgress::StartWritten { index: 0, events: 2, skipped, written: false }.next_step(),
        RunStep::Finish { counted: true }
    );
    for (target, step) in [
        (CallTarget::Unknown, RunStep::Finish { counted: true }),
        (CallTarget::Missing, RunStep::GoWithout),
        (CallTarget::Registered, RunStep::Call),
    ] {
        assert_eq!(RunProgress::Found { target }.next_step(), step);
    }
    assert_eq!(
        RunProgress::Called { known: true, in_range: true }.next_step(),
        RunStep::End
    );
    assert_eq!(
        RunProgress::Called { known: false, in_range: true }.next_step(),
        RunStep::Finish { counted: true }
    );
    assert_eq!(RunProgress::Ended { events: 0 }.next_step(), RunStep::Settle);
    assert_eq!(
        RunProgress::EndWritten { index: 0, events: 2, written: true }.next_step(),
        RunStep::WriteEnd { index: 1 }
    );
    assert_eq!(
        RunProgress::EndWritten { index: 1, events: 2, written: false }.next_step(),
        RunStep::Finish { counted: true }
    );
    assert_eq!(RunProgress::Settled.next_step(), RunStep::Finish { counted: true });
}

#[test]
fn retries_older_than_seven_days_are_let_go() {
    let timer = TimerId::new("t");
    let first = Timestamp::new(1_780_272_000, 0).unwrap();
    let mut state = EngineState::new();
    let retry = |state: &mut EngineState, at: Timestamp| {
        let event = Event::RunRetrying {
            timer_id: TimerId::new("t"),
            run_id: RunId("run_1".to_string()),
            attempt: 2,
            next_retry_at: at.plus(30).unwrap(),
        };
        assert!(state.apply_fits(&event));
        state.apply(&event, at);
    };
    retry(&mut state, first);
    retry(&mut state, first.plus(86_400).unwrap());
    assert_eq!(state.retries_7d.get("t"), Some(&2));
    state.prune_old_retries(first.plus(7 * 86_400).unwrap());
    assert_eq!(state.retries_7d.get("t"), Some(&2));
    state.prune_old_retries(first.plus(7 * 86_400 + 1).unwrap());
    assert_eq!(state.retries_7d.get("t"), Some(&1));
    assert_eq!(
        state.retry_times.get("t").unwrap().times(),
        &vec![first.plus(86_400).unwrap()]
    );
    let kept = copy_state(&state);
    assert_eq!(kept.retry_times.get("t").unwrap().count(), 1);
    state.prune_old_retries(first.plus(9 * 86_400).unwrap());
    assert_eq!(state.retries_7d.get("t"), Some(&0));
    assert_eq!(state.retry_times.get("t").unwrap().count(), 0);
    assert!(state.pending_retries.contains(timer.as_str()));
}
