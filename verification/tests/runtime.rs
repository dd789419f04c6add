use kron::cluster::{
    CreateTimerRequest, DistributedTimerSpec, JoinRequest, NodeInfo, RaftCommand,
    RunCompleteRequest, RunFailRequest, TimerTarget, WorkerRegisterRequest,
};
use kron::error::KronError;
use kron::openraft_adapter::file_store::{PersistedStateMachine, RaftAppState};
use kron::openraft_adapter::network::{KronRaftNetworkFactory, RaftCall};
use kron::openraft_adapter::runtime::{
    bootstraps, check_alpha_store, complete_run, create_timer, created_timer, expire_active_leases,
    fail_run, find_claim, heartbeat_worker, history_for_tenant, join, list, list_for_tenant,
    parse_node_id, poll_step, register_worker, server_token, status, status_for_tenant,
    still_owner, tokens_fit, try_claim, validate_active_run, voters_without, worker_lease_seconds, ClaimStep,
    OpenRaftCluster, TokenSource,
};
use kron::retry::RetryPolicy;
use kron::schedule::Schedule;
use kron::timer::{RunId, TimerId};
use kron::timestamp::Timestamp;

fn now() -> Timestamp {
    Timestamp::new(1_781_000_000, 0).unwrap()
}

fn later(seconds: i64) -> Timestamp {
    now().plus(seconds).unwrap()
}

fn create(machine: &mut PersistedStateMachine, name: &str, tenant: Option<&str>, attempts: u32) {
    let spec = DistributedTimerSpec {
        id: TimerId::new(name),
        tenant_id: tenant.map(|t| t.to_string()),
        schedule: Schedule::Every { seconds: 60 },
        retry: RetryPolicy {
            max_attempts: attempts,
            ..Default::default()
        },
        timezone: "UTC".to_string(),
        target: TimerTarget::WorkerTask {
            task: "digest".to_string(),
            payload: "{}".to_string(),
        },
        created_at: now(),
    };
    machine.apply_kron_command(&RaftCommand::CreateTimer {
        spec,
        next_run_at: Some(now()),
    });
}

fn machine() -> PersistedStateMachine {
    let mut machine = PersistedStateMachine::new("{}".to_string());
    create(&mut machine, "a", Some("tenant-a"), 2);
    create(&mut machine, "b", Some("tenant-b"), 1);
    create(&mut machine, "c", None, 1);
    machine
}

fn tasks() -> Vec<String> {
    vec!["digest".to_string()]
}

fn cluster() -> OpenRaftCluster {
    OpenRaftCluster::open("dir", "n1", "127.0.0.1:7379", "127.0.0.1:7380", "t".to_string())
}

#[test]
fn tenants_see_and_claim_their_own() {
    let app = machine().app_state();
    let names = |tenant: Option<&str>| -> Vec<String> {
        list_for_tenant(&app, tenant).into_iter().map(|s| s.id).collect()
    };
    assert_eq!(names(None), vec!["a", "b", "c"]);
    assert_eq!(names(Some("*")), vec!["a", "b", "c"]);
    assert_eq!(names(Some("tenant-b")), vec!["b"]);
    assert_eq!(list(&app).len(), 3);
    assert!(status(&app, "a").is_some());
    assert!(status_for_tenant(&app, "a", Some("tenant-b")).is_none());
    assert_eq!(history_for_tenant(&app, "a", Some("tenant-a")).len(), 1);
    assert_eq!(history_for_tenant(&app, "a", Some("tenant-b")).len(), 0);
    let fresh = RunId("run_x".to_string());
    let run = find_claim(&app, &tasks(), Some("tenant-b"), &fresh, now()).unwrap();
    assert_eq!(run.timer, "b");
    assert_eq!(run.run_id, "run_x");
    assert_eq!(run.fencing_token, 1);
    assert_eq!(run.idempotency_key, "b:2026-06-09T10:13:20+00:00");
    assert!(find_claim(&app, &tasks(), None, &fresh, later(-1)).is_none());
    assert!(find_claim(&app, &vec!["x".to_string()], None, &fresh, now()).is_none());
}

#[test]
fn claims_make_owners_and_block_others() {
    let mut machine = machine();
    let (run, command) =
        try_claim(&machine.app_state(), "w1", &tasks(), Some("tenant-a"), 30, now()).unwrap();
    machine.apply_kron_command(&command);
    let app = machine.app_state();
    assert!(still_owner(&app, &run, "w1"));
    assert!(!still_owner(&app, &run, "w2"));
    assert!(find_claim(
        &app,
        &tasks(),
        Some("tenant-a"),
        &RunId("run_y".to_string()),
        now()
    )
    .is_none());
    let check = |worker: &str, token: u64, tenant: Option<&str>| {
        validate_active_run(&app, &run.run_id, worker, token, tenant)
            .map_err(|err| err.message())
    };
    assert!(check("w1", 1, Some("tenant-a")).is_ok());
    assert!(check("w2", 1, None).unwrap_err().contains("worker is not run owner"));
    assert!(check("w1", 2, None).unwrap_err().contains("stale fencing token"));
    assert!(check("w1", 1, Some("tenant-b"))
        .unwrap_err()
        .contains("token tenant does not match run tenant"));
    assert!(validate_active_run(&app, "nope", "w1", 1, None)
        .unwrap_err()
        .message()
        .contains("run not active"));
    let done = complete_run(
        &app,
        &run.run_id,
        &RunCompleteRequest {
            worker_id: "w1".to_string(),
            fencing_token: 1,
        },
        None,
        now(),
    )
    .unwrap();
    assert!(matches!(done, RaftCommand::CompleteRun { .. }));
    let failed = fail_run(
        &app,
        &run.run_id,
        &RunFailRequest {
            worker_id: "w1".to_string(),
            fencing_token: 1,
            error: "no".to_string(),
        },
        None,
        now(),
    )
    .unwrap();
    assert!(matches!(failed, RaftCommand::FailRun { .. }));
}

#[test]
fn leases_expire() {
    let mut machine = machine();
    for tenant in ["tenant-a", "tenant-b"] {
        let (_, command) =
            try_claim(&machine.app_state(), "w", &tasks(), Some(tenant), 30, now()).unwrap();
        machine.apply_kron_command(&command);
    }
    assert!(expire_active_leases(&machine.app_state(), later(29)).is_empty());
    let commands = expire_active_leases(&machine.app_state(), later(30));
    assert_eq!(commands.len(), 2);
    let mut replaced = 0;
    for command in &commands {
        if let RaftCommand::ExpireRunLease {
            replacement: Some(run),
            ..
        } = command
        {
            replaced += 1;
            assert_eq!(run.timer, "a");
            assert_eq!(run.attempt, 2);
            assert_eq!(run.fencing_token, 2);
            assert_eq!(run.idempotency_key, format!("a:lease-expired:{}", run.run_id));
        }
    }
    assert_eq!(replaced, 1);
    for command in &commands {
        machine.apply_kron_command(command);
    }
    assert_eq!(machine.app_state().active_runs.len(), 0);
}

fn request(tenant: Option<&str>) -> CreateTimerRequest {
    CreateTimerRequest {
        name: "new".to_string(),
        tenant_id: tenant.map(|t| t.to_string()),
        cron: None,
        every: Some("1m".to_string()),
        after: None,
        at: None,
        timezone: None,
        max_attempts: None,
        task: "digest".to_string(),
        payload: None,
    }
}

#[test]
fn created_timers_belong_to_the_tenant_of_the_token() {
    let tenant_of = |command: RaftCommand| match command {
        RaftCommand::CreateTimer { spec, .. } => spec.tenant_id,
        other => panic!("unexpected command {other:?}"),
    };
    let scope = Some("tenant-a".to_string());
    assert_eq!(
        tenant_of(create_timer(request(None), scope.clone(), now()).unwrap()).as_deref(),
        Some("tenant-a")
    );
    assert_eq!(
        create_timer(request(Some("tenant-b")), scope, now()).unwrap_err(),
        KronError::IpcUnavailable("token tenant does not match requested tenant".to_string())
    );
    assert_eq!(
        tenant_of(create_timer(request(Some("tenant-b")), None, now()).unwrap()).as_deref(),
        Some("tenant-b")
    );
    let app = machine().app_state();
    assert!(created_timer(&app, "a").is_ok());
    assert_eq!(
        created_timer(&app, "nope").unwrap_err(),
        KronError::IpcUnavailable("timer was not applied".to_string())
    );
}

#[test]
fn a_server_that_does_not_lead_says_who_does() {
    let cluster = cluster();
    let mut machine = machine();
    machine.apply_kron_command(&RaftCommand::AddNode {
        node: NodeInfo {
            node_id: "n2".to_string(),
            http_addr: "127.0.0.1:8379".to_string(),
            raft_addr: "127.0.0.1:8380".to_string(),
        },
    });
    let app: RaftAppState = machine.app_state();
    assert!(cluster.ensure_leader(true, None, &app).is_ok());
    let answer = |leader: Option<u64>| match cluster.ensure_leader(false, leader, &app) {
        Err(KronError::IpcUnavailable(text)) => {
            serde_json::from_str::<serde_json::Value>(&text).unwrap()
        }
        other => panic!("unexpected outcome {other:?}"),
    };
    let other = answer(Some(2));
    assert_eq!(other["error"], "not_leader");
    assert_eq!(other["leader_id"], "n2");
    assert_eq!(other["leader_http"], "127.0.0.1:8379");
    let own = answer(Some(1));
    assert_eq!(own["leader_id"], "n1");
    assert_eq!(own["leader_http"], "127.0.0.1:7379");
    let unknown = answer(None);
    assert!(unknown["leader_id"].is_null());
    assert!(unknown["leader_http"].is_null());
    assert!(answer(Some(9))["leader_http"].is_null());
}

#[test]
fn names_of_nodes_have_numbers() {
    assert_eq!(parse_node_id("n1"), 1);
    assert_eq!(parse_node_id("node-12-b3"), 123);
    assert_eq!(parse_node_id(""), 1469598103934665603);
    let hash = (1469598103934665603u64 ^ 97).wrapping_mul(1099511628211);
    assert_eq!(parse_node_id("a"), hash);
    assert_eq!(cluster().node_id, 1);
}

#[test]
fn leases_follow_the_environment() {
    let lease = |text: &str| worker_lease_seconds(&Some(text.to_string()));
    assert_eq!(lease("5"), 5);
    assert_eq!(lease("0"), 30);
    assert_eq!(lease("soon"), 30);
    assert_eq!(worker_lease_seconds(&None), 30);
    let worker = WorkerRegisterRequest {
        worker_id: "w".to_string(),
        tasks: tasks(),
        lease_seconds: None,
    };
    match register_worker(&worker, 7, now()) {
        RaftCommand::RegisterWorker { lease_until, .. } => assert_eq!(lease_until, later(7)),
        other => panic!("unexpected command {other:?}"),
    }
    match heartbeat_worker("w", 9, now()) {
        RaftCommand::HeartbeatWorker { lease_until, .. } => assert_eq!(lease_until, later(9)),
        other => panic!("unexpected command {other:?}"),
    }
}

#[test]
fn tokens_of_servers_come_from_somewhere() {
    assert_eq!(
        server_token(Some("env".to_string()), true),
        TokenSource::Given("env".to_string())
    );
    assert_eq!(server_token(None, true), TokenSource::InFile);
    match server_token(None, false) {
        TokenSource::Fresh(token) => assert_eq!(token.len(), 26),
        other => panic!("unexpected source {other:?}"),
    }
}

#[test]
fn polls_go_on_until_the_deadline() {
    assert!(matches!(poll_step(None, 5, 10, false), ClaimStep::Wait { millis: 100 }));
    assert!(matches!(poll_step(None, 10, 10, false), ClaimStep::Stop));
    assert!(matches!(poll_step(None, 5, 10, true), ClaimStep::Stop));
    let claim = try_claim(&machine().app_state(), "w", &tasks(), None, 30, now());
    assert!(matches!(poll_step(claim, 10, 10, true), ClaimStep::Claim { .. }));
}

#[test]
fn members_join_and_leave() {
    assert_eq!(voters_without(&vec![1, 2, 3], 2), vec![1, 3]);
    let command = join(&JoinRequest {
        node_id: "n2".to_string(),
        http_addr: "h".to_string(),
        raft_addr: "r".to_string(),
    });
    assert!(matches!(command, RaftCommand::AddNode { .. }));
    assert!(bootstraps("n1", &None));
    assert!(bootstraps("n1", &Some("n1".to_string())));
    assert!(!bootstraps("n2", &Some("n1".to_string())));
    assert!(check_alpha_store(true).is_err());
    assert!(check_alpha_store(false).is_ok());
}

#[test]
fn peers_are_called_by_their_address() {
    let factory = KronRaftNetworkFactory::new("t".to_string());
    let peer = factory.new_client(4, "10.0.0.4:7380");
    assert_eq!(peer.url(RaftCall::Vote), "http://10.0.0.4:7380/__kron/raft/vote");
    assert!(peer.check(204, "").is_ok());
    assert_eq!(
        peer.check(401, "401 Unauthorized").unwrap_err(),
        "raft peer 4 returned 401 Unauthorized"
    );
}

#[test]
fn largest_tokens_are_noticed() {
    let mut machine = PersistedStateMachine::new("{}".to_string());
    create(&mut machine, "t", None, 1);
    assert!(tokens_fit(&machine.app_state()));
    machine.apply_kron_command(&RaftCommand::ClaimRun {
        timer_id: TimerId::new("t"),
        run_id: RunId("r".to_string()),
        worker_id: "w".to_string(),
        fencing_token: u64::MAX,
        attempt: 1,
        lease_deadline: later(30),
    });
    assert!(!tokens_fit(&machine.app_state()));
}
