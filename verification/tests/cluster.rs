use kron::cluster::{
    choice_fits, creation_fits, creation_of, CreateTimerRequest, JoinRequest, LeaveRequest,
    RaftCommand, RunCompleteRequest, RunFailRequest, TimerTarget, WorkerRegisterRequest, WorkerRun,
};
use kron::cluster_engine::{ClusterEngine, PollStep};
use kron::error::KronError;
use kron::schedule::Schedule;
use kron::timer::{RunId, TimerId, TimerState};
use kron::timestamp::Timestamp;

fn now() -> Timestamp {
    Timestamp::new(1_781_000_000, 0).unwrap()
}

fn later(seconds: i64) -> Timestamp {
    now().plus(seconds).unwrap()
}

fn engine() -> ClusterEngine {
    ClusterEngine::open("dir", "n1", "127.0.0.1:0", "127.0.0.1:0")
}

fn timer_request(name: &str) -> CreateTimerRequest {
    CreateTimerRequest {
        name: name.to_string(),
        tenant_id: None,
        cron: None,
        every: Some("1s".to_string()),
        after: None,
        at: None,
        timezone: Some("UTC".to_string()),
        max_attempts: Some(1),
        task: "digest".to_string(),
        payload: Some("{\"hello\":\"world\"}".to_string()),
    }
}

fn create(engine: &mut ClusterEngine, request: &CreateTimerRequest) {
    assert!(creation_fits(request, now()));
    match engine.create_timer(request, now()).unwrap() {
        RaftCommand::CreateTimer { spec, .. } => {
            engine.add_timer(spec, now()).unwrap();
        }
        other => panic!("unexpected command {other:?}"),
    }
}

fn register(engine: &mut ClusterEngine, worker_id: &str) {
    let request = WorkerRegisterRequest {
        worker_id: worker_id.to_string(),
        tasks: vec!["digest".to_string()],
        lease_seconds: Some(30),
    };
    assert!(matches!(
        engine.register_worker(&request, now()).unwrap(),
        RaftCommand::RegisterWorker { .. }
    ));
    engine.add_worker(&request, now(), 0);
}

fn claim(engine: &mut ClusterEngine, worker_id: &str) -> Option<WorkerRun> {
    let tasks = vec!["digest".to_string()];
    let (at, command) = engine.state.claim_pending_for(worker_id, &tasks, now())?;
    assert!(matches!(command, RaftCommand::ClaimRun { .. }));
    Some(engine.state.give_run(worker_id, at, now()))
}

fn make_due(engine: &mut ClusterEngine, name: &str) {
    engine
        .state
        .next_runs
        .insert(name.to_string(), later(-1));
}

#[test]
fn claim_run_has_single_owner_and_fencing_token() {
    let mut engine = engine();
    create(&mut engine, &timer_request("email"));
    make_due(&mut engine, "email");
    register(&mut engine, "w1");
    engine.state.enqueue_due_runs(now());
    let run = claim(&mut engine, "w1").unwrap();

    assert_eq!(run.timer, "email");
    assert_eq!(run.fencing_token, 1);
    assert_eq!(engine.state.active_runs.len(), 1);
    assert!(run.run_id.starts_with("run_"));
    assert_eq!(run.run_id.len(), 30);
    assert_eq!(run.payload, "{\"hello\":\"world\"}");
    assert!(run.idempotency_key.starts_with("email:20"));
    assert!(claim(&mut engine, "w1").is_none());
}

#[test]
fn stale_completion_is_rejected() {
    let mut engine = engine();
    create(&mut engine, &timer_request("payment"));
    make_due(&mut engine, "payment");
    register(&mut engine, "w1");
    engine.state.enqueue_due_runs(now());
    let run = claim(&mut engine, "w1").unwrap();
    let err = engine
        .complete_run(
            &run.run_id,
            &RunCompleteRequest {
                worker_id: "w1".to_string(),
                fencing_token: run.fencing_token + 1,
            },
            now(),
        )
        .unwrap_err();
    assert!(err.message().contains("stale fencing token"));
}

#[test]
fn expired_worker_requeues_active_run_with_new_fencing_token() {
    let mut engine = engine();
    let mut request = timer_request("lease");
    request.max_attempts = Some(2);
    create(&mut engine, &request);
    make_due(&mut engine, "lease");
    register(&mut engine, "w1");
    engine.state.enqueue_due_runs(now());
    let first = claim(&mut engine, "w1").unwrap();

    engine.state.workers.remove("w1");
    let mut active = engine.state.active_runs.remove(&first.run_id).unwrap();
    active.lease_deadline = later(-1);
    engine.state.active_runs.insert(first.run_id.clone(), active);
    engine.state.expire_workers(now(), 0);

    let state = &engine.state;
    assert_eq!(state.active_runs.len(), 0);
    assert_eq!(state.pending.len(), 1);
    let retry = &state.pending[0];
    assert_eq!(retry.run_id, first.run_id);
    assert_eq!(retry.attempt, 2);
    assert_eq!(retry.fencing_token, first.fencing_token + 1);
    assert_eq!(state.states.get("lease"), Some(&TimerState::Retrying));
}

#[test]
fn join_and_leave_update_membership() {
    let mut engine = engine();
    let command = engine
        .join(&JoinRequest {
            node_id: "n2".to_string(),
            http_addr: "127.0.0.1:7474".to_string(),
            raft_addr: "127.0.0.1:7475".to_string(),
        })
        .unwrap();
    assert!(engine.apply_replicated_command(&command, now(), 0).unwrap());
    assert_eq!(engine.state.config.peers.len(), 1);
    assert_eq!(engine.state.config.peers[0].node_id, "n2");
    let command = engine
        .leave(&LeaveRequest {
            node_id: "n2".to_string(),
        })
        .unwrap();
    assert!(engine.apply_replicated_command(&command, now(), 0).unwrap());
    assert!(engine.state.config.peers.is_empty());
}

#[test]
fn silent_workers_lose_their_runs() {
    let mut engine = engine();
    create(&mut engine, &timer_request("once"));
    make_due(&mut engine, "once");
    register(&mut engine, "w1");
    engine.state.enqueue_due_runs(now());
    let run = claim(&mut engine, "w1").unwrap();
    engine.state.expire_workers(now(), 30_000);
    assert_eq!(engine.state.active_runs.len(), 1);
    engine.state.expire_workers(now(), 30_001);
    assert_eq!(engine.state.workers.len(), 0);
    assert_eq!(engine.state.active_runs.len(), 0);
    assert_eq!(engine.state.pending.len(), 0);
    assert_eq!(engine.state.states.get("once"), Some(&TimerState::Dead));
    let names: Vec<&str> = engine.state.history.iter().map(|e| e.kind.name()).collect();
    assert_eq!(
        names,
        vec![
            "TIMER_CREATED",
            "WORKER_REGISTERED",
            "RUN_CLAIMED",
            "WORKER_LOST",
            "RUN_LEASE_EXPIRED",
            "RUN_DEAD"
        ]
    );
    let err = engine
        .fail_run(
            &run.run_id,
            &RunFailRequest {
                worker_id: "w1".to_string(),
                fencing_token: run.fencing_token,
                error: "late".to_string(),
            },
            now(),
        )
        .unwrap_err();
    assert!(err.message().contains("run not active"));
}

#[test]
fn completed_runs_are_rescheduled_and_failed_ones_tried_again() {
    let mut engine = engine();
    let mut timer = timer_request("job");
    timer.max_attempts = Some(3);
    create(&mut engine, &timer);
    make_due(&mut engine, "job");
    engine.state.enqueue_due_runs(now());
    let run = claim(&mut engine, "w1").unwrap();
    let request = RunCompleteRequest {
        worker_id: "w1".to_string(),
        fencing_token: run.fencing_token,
    };
    assert!(engine.complete_run(&run.run_id, &request, now()).is_ok());
    engine.end_completed(&run.run_id, now());
    assert_eq!(engine.status("job").unwrap().state, TimerState::Scheduled);
    assert_eq!(engine.status("job").unwrap().next_run_at, Some(later(1)));
    assert_eq!(
        engine.status("job").unwrap().last_status.as_deref(),
        Some("RUN_SUCCEEDED")
    );
    assert!(engine.complete_run(&run.run_id, &request, now()).is_err());

    make_due(&mut engine, "job");
    engine.state.enqueue_due_runs(now());
    let run = claim(&mut engine, "w1").unwrap();
    assert_eq!(run.fencing_token, 2);
    let request = RunFailRequest {
        worker_id: "w1".to_string(),
        fencing_token: 2,
        error: "boom".to_string(),
    };
    assert!(engine.fail_run(&run.run_id, &request, now()).is_ok());
    assert!(engine.state.failure_fits(&run.run_id));
    engine.end_failed(&run.run_id, &request.error, now());
    assert_eq!(engine.status("job").unwrap().state, TimerState::Retrying);
    let history = engine.history("job");
    assert_eq!(history.last().unwrap().error.as_deref(), Some("boom"));
    assert!(engine.fail_run(&run.run_id, &request, now()).is_err());

    for attempt in 2..=3 {
        let next = claim(&mut engine, "w1").unwrap();
        assert_eq!(next.run_id, run.run_id);
        assert_eq!(next.attempt, attempt);
        assert_eq!(next.fencing_token, u64::from(attempt) + 1);
        engine.end_failed(&next.run_id, &request.error, now());
    }
    assert_eq!(engine.status("job").unwrap().state, TimerState::Dead);
    assert_eq!(engine.state.pending.len(), 0);
    assert_eq!(engine.state.active_runs.len(), 0);
}

#[test]
fn a_failure_that_needs_a_new_token_does_not_fit_at_the_last_one() {
    let mut engine = engine();
    let mut timer = timer_request("job");
    timer.max_attempts = Some(3);
    create(&mut engine, &timer);
    make_due(&mut engine, "job");
    engine.state.enqueue_due_runs(now());
    let run = claim(&mut engine, "w1").unwrap();
    assert!(engine.state.failure_fits(&run.run_id));
    engine.state.fencing.insert("job".to_string(), u64::MAX);
    assert!(!engine.state.failure_fits(&run.run_id));
    assert!(engine.state.failure_fits("another"));
}

#[test]
fn a_follower_refuses_changes() {
    let mut engine = ClusterEngine::open_with_leader(
        "dir",
        "n2",
        "h",
        "r",
        Some("n1".to_string()),
    );
    let expected = KronError::IpcUnavailable("not_leader: leader is n1".to_string());
    assert_eq!(
        engine.create_timer(&timer_request("x"), now()).unwrap_err(),
        expected
    );
    assert_eq!(engine.heartbeat_worker("w", now(), 0).unwrap_err(), expected);
    assert_eq!(engine.poll_worker("w", now(), 0).unwrap_err(), expected);
    engine
        .state
        .next_runs
        .insert("x".to_string(), later(-1));
    engine.state.enqueue_due_runs(now());
    assert!(engine.state.pending.is_empty());
    assert_eq!(engine.cluster_status().role, "follower");
}

#[test]
fn polls_claim_wait_or_stop() {
    let mut engine = engine();
    let tasks = vec!["digest".to_string()];
    let deadline = engine.poll_worker("w1", now(), 5).unwrap();
    assert_eq!(deadline, 20_005);
    match engine.poll_step("w1", &tasks, now(), 5, deadline) {
        PollStep::Wait { millis } => assert_eq!(millis, 100),
        other => panic!("unexpected step {other:?}"),
    }
    assert!(matches!(
        engine.poll_step("w1", &tasks, now(), deadline, deadline),
        PollStep::Stop
    ));
    create(&mut engine, &timer_request("t"));
    make_due(&mut engine, "t");
    engine.state.enqueue_due_runs(now());
    assert!(matches!(
        engine.poll_step("w1", &tasks, now(), deadline, deadline),
        PollStep::Claim { at: 0, .. }
    ));
    assert!(matches!(
        engine.poll_step("w1", &vec!["other".to_string()], now(), 5, deadline),
        PollStep::Wait { .. }
    ));
    engine.shutdown();
    assert!(engine.is_shutting_down());
    assert!(matches!(
        engine.poll_step("w1", &vec!["other".to_string()], now(), 5, deadline),
        PollStep::Stop
    ));
}

#[test]
fn a_timer_has_one_run_at_a_time() {
    let mut engine = engine();
    create(&mut engine, &timer_request("t"));
    make_due(&mut engine, "t");
    engine.state.enqueue_due_with(now(), &vec!["run_a".to_string()]);
    engine.state.enqueue_due_with(now(), &vec!["run_b".to_string()]);
    assert_eq!(engine.state.pending.len(), 1);
    assert_eq!(engine.state.pending[0].run_id, "run_a");
    claim(&mut engine, "w").unwrap();
    engine.state.enqueue_due_with(now(), &vec!["run_c".to_string()]);
    assert_eq!(engine.state.pending.len(), 0);
}

#[test]
fn replayed_commands_rebuild_the_server() {
    let first = engine();
    let create = first.create_timer(&timer_request("t"), now()).unwrap();
    let claim = |run: &str, token: u64| RaftCommand::ClaimRun {
        timer_id: TimerId::new("t"),
        run_id: RunId(run.to_string()),
        worker_id: "w".to_string(),
        fencing_token: token,
        attempt: 1,
        lease_deadline: later(30),
    };
    let done = RaftCommand::CompleteRun {
        run_id: RunId("r1".to_string()),
        worker_id: "w".to_string(),
        fencing_token: 1,
        completed_at: now(),
    };
    let commands = vec![create, claim("r1", 1), claim("r2", 2), done];
    let engine = first.replay_commands(&commands, now(), 0).ok().unwrap();
    assert_eq!(engine.state.active_runs.len(), 0);
    let summary = engine.status("t").unwrap();
    assert_eq!(summary.fencing_token, 1);
    assert_eq!(summary.state, TimerState::Scheduled);
    assert_eq!(engine.list().len(), 1);
    assert_eq!(engine.data_dir(), "dir");
}

#[test]
fn a_command_that_cannot_be_applied_stops_the_replay() {
    let first = engine();
    let mut request = timer_request("t");
    request.timezone = Some("UTC".to_string());
    let command = match first.create_timer(&request, now()).unwrap() {
        RaftCommand::CreateTimer { mut spec, next_run_at } => {
            spec.timezone = "Nope/Nowhere".to_string();
            RaftCommand::CreateTimer { spec, next_run_at }
        }
        other => other,
    };
    let err = first.replay_commands(&vec![command], now(), 0).err().unwrap();
    assert_eq!(err, KronError::InvalidTimezone("Nope/Nowhere".to_string()));
}

#[test]
fn pausing_resuming_and_cancelling() {
    let mut engine = engine();
    create(&mut engine, &timer_request("t"));
    let id = TimerId::new("t");
    let apply = |engine: &mut ClusterEngine, command: RaftCommand| {
        assert!(engine.state.apply_fits(&command, now(), 0));
        engine.apply_replicated_command(&command, now(), 0).unwrap();
    };
    apply(&mut engine, RaftCommand::PauseTimer { timer_id: id.clone() });
    assert_eq!(engine.status("t").unwrap().state, TimerState::Paused);
    assert_eq!(engine.status("t").unwrap().next_run_at, None);
    apply(
        &mut engine,
        RaftCommand::ResumeTimer {
            timer_id: id.clone(),
            next_run_at: None,
        },
    );
    assert_eq!(engine.status("t").unwrap().next_run_at, Some(later(1)));
    apply(&mut engine, RaftCommand::CancelTimer { timer_id: id });
    assert_eq!(engine.status("t").unwrap().state, TimerState::Cancelled);
}

#[test]
fn a_quorum_is_a_majority() {
    let mut engine = engine();
    assert!(engine.check_quorum(1).is_ok());
    for n in 2..=5 {
        let command = engine
            .join(&JoinRequest {
                node_id: format!("n{n}"),
                http_addr: String::new(),
                raft_addr: String::new(),
            })
            .unwrap();
        engine.apply_replicated_command(&command, now(), 0).unwrap();
    }
    assert!(engine.check_quorum(3).is_ok());
    assert_eq!(
        engine.check_quorum(2).unwrap_err(),
        KronError::IpcUnavailable(
            "replication quorum failed: 2/3 acknowledgements".to_string()
        )
    );
    assert_eq!(engine.cluster_status().peers.len(), 4);
}

#[test]
fn requests_say_when_in_exactly_one_way() {
    let mut request = timer_request("t");
    request.cron = Some("* * * * *".to_string());
    assert_eq!(
        creation_of(&request, now()).unwrap_err(),
        KronError::InvalidCron("expected exactly one of cron, every, after, at".to_string())
    );
    request.every = None;
    match creation_of(&request, now()).unwrap() {
        RaftCommand::CreateTimer { spec, next_run_at } => {
            assert!(matches!(spec.schedule, Schedule::Cron { .. }));
            assert!(next_run_at.is_some());
            assert_eq!(spec.retry.max_attempts, 1);
            assert!(matches!(spec.target, TimerTarget::WorkerTask { .. }));
        }
        other => panic!("unexpected command {other:?}"),
    }
    request.cron = None;
    request.at = Some("yesterday".to_string());
    match creation_of(&request, now()).unwrap_err() {
        KronError::InvalidCron(message) => assert!(message.starts_with("invalid at datetime: ")),
        other => panic!("unexpected error {other:?}"),
    }
    request.at = Some("2027-01-01T00:00:00Z".to_string());
    request.timezone = None;
    request.payload = None;
    request.max_attempts = None;
    match creation_of(&request, now()).unwrap() {
        RaftCommand::CreateTimer { spec, .. } => {
            assert_eq!(spec.timezone, "UTC");
            assert_eq!(spec.retry.max_attempts, 3);
            match spec.target {
                TimerTarget::WorkerTask { payload, .. } => assert_eq!(payload, "null"),
                other => panic!("unexpected target {other:?}"),
            }
        }
        other => panic!("unexpected command {other:?}"),
    }
    request.at = None;
    request.after = Some("30s".to_string());
    match creation_of(&request, now()).unwrap() {
        RaftCommand::CreateTimer { next_run_at, .. } => assert_eq!(next_run_at, Some(later(30))),
        other => panic!("unexpected command {other:?}"),
    }
}

#[test]
fn what_cannot_be_created_is_told() {
    let every = Some("9223372036854775807s".to_string());
    assert!(!choice_fits(&None, &every, &None, &None, "UTC", now()));
    let huge = Some("18446744073709551615d".to_string());
    assert!(!choice_fits(&None, &None, &huge, &None, "UTC", now()));
    assert!(choice_fits(&None, &every, &every, &None, "UTC", now()));
    assert!(choice_fits(&None, &Some("5m".to_string()), &None, &None, "UTC", now()));
}

#[test]
fn tokens_that_cannot_be_raised_are_noticed() {
    let mut engine = engine();
    assert!(engine.state.tokens_fit(u64::MAX));
    engine.state.fencing.insert("t".to_string(), u64::MAX - 1);
    assert!(engine.state.tokens_fit(1));
    assert!(!engine.state.tokens_fit(2));
    assert!(engine.state.expiry_fits(now(), 0));
    engine.state.fencing.insert("t".to_string(), u64::MAX);
    assert!(engine.state.expiry_fits(now(), 0));
    assert!(!engine.state.tokens_fit(1));
}

#[test]
fn a_heartbeat_of_a_known_worker_is_noted() {
    let mut engine = engine();
    register(&mut engine, "w1");
    engine.heartbeat_worker("w1", later(5), 7).unwrap();
    let entry = engine.state.history.last().unwrap();
    assert_eq!(entry.kind.name(), "WORKER_HEARTBEAT");
    assert_eq!(entry.worker_id.as_deref(), Some("w1"));
    assert_eq!(entry.ts, Some(later(5)));
    assert_eq!(engine.state.workers.get("w1").unwrap().lease_until, 30_007);
    let noted = engine.state.history.len();
    engine.heartbeat_worker("w2", later(6), 8).unwrap();
    assert_eq!(engine.state.history.len(), noted);
    assert_eq!(engine.state.workers.len(), 1);
}

#[test]
fn a_failed_run_of_another_target_is_scheduled_until_its_last_attempt() {
    let mut engine = engine();
    let mut timer = timer_request("job");
    timer.max_attempts = Some(2);
    create(&mut engine, &timer);
    make_due(&mut engine, "job");
    engine.state.enqueue_due_runs(now());
    let run = claim(&mut engine, "w1").unwrap();
    let mut spec = engine.state.timers.get("job").unwrap().clone();
    spec.target = TimerTarget::EmbeddedFn { name: "f".to_string() };
    engine.state.timers.insert("job".to_string(), spec);
    engine.end_failed(&run.run_id, &"boom".to_string(), now());
    assert_eq!(engine.status("job").unwrap().state, TimerState::Scheduled);
    assert_eq!(engine.state.pending.len(), 0);
    assert_eq!(engine.state.active_runs.len(), 0);
}
