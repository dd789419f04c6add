use kron::binding::{
    accepts_context, map_kron_error, parse_overlap, parse_schedule, report_body, report_path, resolve_data_dir,
    text_or_empty, unknown_task, worker_name, AtArgument,
};
use kron::client::Field;
use kron::commands::audit::{verified_line, AuditCommand, AuditStep};
use kron::commands::job::{list_line_of, local_status, print_list, print_status, JobCommand, JobStep};
use kron::commands::log::{compact, CompactOutcome, LogCommand};
use kron::commands::runtime::{data_of, RuntimeCommand};
use kron::commands::server::{forgotten_move, ServerCommand, ServerStep};
use kron::commands::{audit, choose_data_dir, doctor, job, log, runtime, server};
use kron::error::KronError;
use kron::ipc::{IpcRequest, IpcResponse};
use kron::schedule::Schedule;
use kron::state::EngineState;
use kron::timer::{OverlapPolicy, TimerId, TimerState, TimerSummary};
use kron::timestamp::Timestamp;

fn now() -> Timestamp {
    Timestamp::new(1_781_000_000, 0).unwrap()
}

fn summary(id: &str) -> TimerSummary {
    TimerSummary {
        id: TimerId::new(id),
        state: TimerState::Scheduled,
        fn_name: None,
        last_run_at: None,
        last_duration_ms: None,
        last_status: None,
        next_run_at: None,
        retries_last_7d: 0,
    }
}

#[test]
fn job_commands_ask_the_server_or_the_engine() {
    assert_eq!(
        job::run(JobCommand::Status { timer: "t".to_string() }, true),
        JobStep::Server { path: "/v1/timers/t".to_string() }
    );
    assert_eq!(
        job::run(JobCommand::History { timer: "t".to_string(), limit: Some(3) }, true),
        JobStep::Server { path: "/v1/timers/t/history".to_string() }
    );
    assert_eq!(
        job::run(JobCommand::History { timer: "t".to_string(), limit: Some(3) }, false),
        JobStep::Engine {
            request: IpcRequest::History { name: "t".to_string(), limit: Some(3) }
        }
    );
    assert_eq!(
        job::run(JobCommand::List, false),
        JobStep::Engine { request: IpcRequest::List }
    );
    assert_eq!(
        local_status(&EngineState::new(), "t").unwrap_err(),
        "timer 't' not found"
    );
}

#[test]
fn timers_are_listed_in_order() {
    assert_eq!(print_list(Vec::new()), vec!["(no timers registered)"]);
    let mut first = summary("alpha");
    first.next_run_at = Some(now());
    let lines = print_list(vec![summary("beta"), first]);
    assert_eq!(lines.len(), 4);
    assert_eq!(lines[0], format!("{:<30} {:<12} NEXT RUN", "TIMER", "STATUS"));
    assert_eq!(lines[1], "-".repeat(70));
    assert_eq!(
        lines[2],
        format!("{:<30} {:<12} {}", "alpha", "scheduled", "2026-06-09 10:13 UTC")
    );
    assert_eq!(lines[3], format!("{:<30} {:<12} {}", "beta", "scheduled", "-"));
    assert_eq!(
        list_line_of(&summary("x"), "soon"),
        format!("{:<30} {:<12} {}", "x", "scheduled", "soon")
    );
}

#[test]
fn timers_are_described() {
    let mut known = summary("t");
    known.fn_name = Some("f".to_string());
    known.last_run_at = Some(now());
    known.last_duration_ms = Some(12);
    known.last_status = Some("OK".to_string());
    known.next_run_at = now().plus(61);
    known.retries_last_7d = 2;
    assert_eq!(
        print_status(known),
        vec![
            "timer:       t",
            "status:      scheduled",
            "fn:          f (registered)",
            "last_run:    2026-06-09 10:13:20 UTC",
            "duration:    12ms",
            "last_status: OK",
            "next_run:    2026-06-09 10:14:21 UTC",
            "retries_7d:  2",
        ]
    );
    assert_eq!(
        print_status(summary("t")),
        vec![
            "timer:       t",
            "status:      scheduled",
            "fn:          - (not registered)",
            "retries_7d:  0",
        ]
    );
}

#[test]
fn logs_are_compacted_by_the_engine_or_here() {
    assert_eq!(log::run(LogCommand::Compact), IpcRequest::Compact);
    assert_eq!(
        compact(Some(IpcResponse::Success { data: "null".to_string() })),
        CompactOutcome::Done { line: "compacted via active runtime".to_string() }
    );
    assert_eq!(
        compact(Some(IpcResponse::Error { message: "no".to_string() })),
        CompactOutcome::Failed { message: "no".to_string() }
    );
    assert_eq!(compact(None), CompactOutcome::CompactHere);
}

#[test]
fn the_engine_is_asked_about_itself() {
    assert_eq!(runtime::run(RuntimeCommand::Status), IpcRequest::RuntimeStatus);
    assert_eq!(runtime::run(RuntimeCommand::Shutdown), IpcRequest::Shutdown);
    assert_eq!(
        data_of(IpcResponse::Success { data: "1".to_string() }),
        Ok("1".to_string())
    );
    assert_eq!(
        data_of(IpcResponse::Error { message: "m".to_string() }),
        Err("m".to_string())
    );
    assert_eq!(
        doctor::run("d", 3, true, false),
        vec![
            "runtime: inactive",
            "data_dir: d",
            "timers: 3",
            "snapshot: true",
            "aof: false",
        ]
    );
}

#[test]
fn server_commands_start_or_ask() {
    let start = |leader: Option<&str>| ServerCommand::Start {
        node_id: "n1".to_string(),
        http: "h".to_string(),
        raft: "r".to_string(),
        leader_id: leader.map(|l| l.to_string()),
        cluster_token: None,
    };
    assert!(matches!(server::run(start(None)), ServerStep::Start { bootstrap: true, .. }));
    assert!(matches!(
        server::run(start(Some("n2"))),
        ServerStep::Start { bootstrap: false, .. }
    ));
    let request = |method: &str, path: &str, body: Option<&str>| ServerStep::Request {
        method: method.to_string(),
        path: path.to_string(),
        body: body.map(|b| b.to_string()),
    };
    assert_eq!(
        server::run(ServerCommand::Status),
        request("GET", "/v1/cluster/status", None)
    );
    assert_eq!(
        server::run(ServerCommand::Shutdown),
        request("POST", "/v1/runtime/shutdown", Some("{}"))
    );
    assert_eq!(
        server::run(ServerCommand::Join {
            node_id: "n\"2".to_string(),
            http: "h".to_string(),
            raft: "r".to_string(),
        }),
        request(
            "POST",
            "/v1/cluster/join",
            Some("{\"http_addr\":\"h\",\"node_id\":\"n\\\"2\",\"raft_addr\":\"r\"}")
        )
    );
    assert_eq!(
        server::run(ServerCommand::Leave { node_id: "n2".to_string() }),
        request("POST", "/v1/cluster/leave", Some("{\"node_id\":\"n2\"}"))
    );
    assert_eq!(
        forgotten_move("x", "denied"),
        "warning: request followed leader redirect to x, but failed to update kron.http: denied"
    );
}

#[test]
fn audit_commands() {
    assert!(matches!(audit::run(AuditCommand::Verify), Ok(AuditStep::Verify)));
    assert!(matches!(
        audit::run(AuditCommand::Tail { limit: 5, no_follow: true }),
        Ok(AuditStep::Tail { limit: 5, follow: false })
    ));
    let query = |from: &str, to: &str| {
        audit::run(AuditCommand::Query {
            actor: Some("a".to_string()),
            action: None,
            from: Some(from.to_string()),
            to: Some(to.to_string()),
        })
    };
    match query("2026-06-01", "2026-06-10") {
        Ok(AuditStep::Query { wanted }) => {
            assert_eq!(wanted.actor.as_deref(), Some("a"));
            let span = wanted.to.unwrap().secs() - wanted.from.unwrap().secs();
            assert_eq!(span, 10 * 86_400 - 1);
        }
        _ => panic!("unexpected step"),
    }
    assert!(query("soon", "2026-06-10").is_err());
    assert!(query("2026-06-01", "later").is_err());
    assert_eq!(verified_line(7), "Audit chain verified: 7 records OK");
}

#[test]
fn data_directories_are_chosen() {
    let some = |t: &str| Some(t.to_string());
    assert_eq!(choose_data_dir(some("a"), some("b")), "a");
    assert_eq!(choose_data_dir(None, some("b")), "b");
    assert_eq!(choose_data_dir(None, None), ".kron");
    assert_eq!(resolve_data_dir(&some("a"), &some("b"), &None, &None), "a");
    assert_eq!(resolve_data_dir(&None, &some("b"), &None, &None), "b");
    assert_eq!(
        resolve_data_dir(&None, &None, &some("/srv/app/main.py"), &some("/home/u")),
        "/srv/app/.kron"
    );
    assert_eq!(
        resolve_data_dir(&None, &None, &some("main.py"), &some("/home/u")),
        ".kron"
    );
    for none in ["", "-", "-c", "-m"] {
        assert_eq!(
            resolve_data_dir(&None, &None, &some(none), &some("/home/u")),
            "/home/u/.kron"
        );
    }
    assert_eq!(
        resolve_data_dir(&None, &None, &some("./-c"), &some("/home/u")),
        "./.kron"
    );
    assert_eq!(
        resolve_data_dir(&None, &None, &None, &some("/home/u")),
        "/home/u/.kron"
    );
    assert_eq!(resolve_data_dir(&None, &None, &some(""), &None), ".kron");
}

#[test]
fn arguments_make_up_a_schedule() {
    let some = |t: &str| Some(t.to_string());
    let message = |cron: &Option<String>, every: &Option<String>, at: &Option<AtArgument>| {
        parse_schedule(cron, every, &None, at, now()).unwrap_err()
    };
    assert_eq!(
        message(&some("* * * * *"), &some("5m"), &None).message,
        "schedule() requires exactly one of cron, every, after, at"
    );
    assert_eq!(
        message(&None, &None, &None).message,
        "schedule() requires exactly one of cron, every, after, at"
    );
    let wrong = message(&None, &some("5x"), &None);
    assert!(wrong.value_error);
    assert_eq!(
        wrong.message,
        "invalid cron expression: duration must end with s/m/h/d: 5x"
    );
    assert_eq!(
        message(&None, &None, &Some(AtArgument::Other("int".to_string()))).message,
        "at must be timezone-aware datetime or RFC3339 string, got int"
    );
    assert!(message(&None, &None, &Some(AtArgument::Text("x".to_string())))
        .message
        .starts_with("invalid at datetime: "));
    assert_eq!(
        parse_schedule(
            &None,
            &None,
            &None,
            &Some(AtArgument::Text("2026-06-09T10:13:20Z".to_string())),
            now()
        ),
        Ok(Schedule::At { at: now() })
    );
    assert_eq!(
        parse_schedule(&None, &None, &some("30s"), &None, now()),
        Ok(Schedule::After { seconds: 30, registered_at: now() })
    );
    assert_eq!(parse_overlap(&None), Ok(OverlapPolicy::Delay));
    assert_eq!(parse_overlap(&some("allow")), Ok(OverlapPolicy::Allow));
    assert!(parse_overlap(&some("maybe")).unwrap_err().value_error);
}

#[test]
fn errors_are_raised() {
    let locked = map_kron_error(&KronError::DataDirLocked { path: "d/kron.lock".to_string() });
    assert!(!locked.value_error);
    assert_eq!(
        locked.message,
        "data directory is already locked: d/kron.lock; another writer may be active; socket: d/kron.sock"
    );
    assert!(map_kron_error(&KronError::InvalidCron("x".to_string())).value_error);
    assert!(!map_kron_error(&KronError::TimerNotFound("x".to_string())).value_error);
}

#[test]
fn functions_and_workers() {
    let kinds = |names: &[&str]| names.iter().map(|n| n.to_string()).collect::<Vec<_>>();
    assert!(accepts_context(&kinds(&["KEYWORD_ONLY", "POSITIONAL_OR_KEYWORD"])));
    assert!(accepts_context(&kinds(&["VAR_POSITIONAL"])));
    assert!(!accepts_context(&kinds(&["KEYWORD_ONLY", "VAR_KEYWORD"])));
    assert!(!accepts_context(&Vec::new()));
    assert_eq!(report_path("r", true), "/v1/runs/r/succeed");
    assert_eq!(report_path("r", false), "/v1/runs/r/fail");
    assert_eq!(
        report_body("w\"1", 7, &None),
        "{\"fencing_token\":7,\"worker_id\":\"w\\\"1\"}"
    );
    assert_eq!(
        report_body("w", 7, &Some("no".to_string())),
        "{\"error\":\"no\",\"fencing_token\":7,\"worker_id\":\"w\"}"
    );
    assert_eq!(worker_name(None, "5"), "worker_5");
    assert_eq!(worker_name(Some("w".to_string()), "5"), "w");
    assert_eq!(text_or_empty(Field::Text("t".to_string())), "t");
    assert_eq!(text_or_empty(Field::Other), "");
    assert_eq!(unknown_task("t"), "task t is not registered");
}

#[test]
fn json_strings_escape_quotes_backslashes_and_control_characters() {
    let error = Some("a\"b\\c\u{8}\t\n\u{c}\r\u{1}\u{1f}\u{7f}é/".to_string());
    assert_eq!(
        report_body("w", 7, &error),
        "{\"error\":\"a\\\"b\\\\c\\b\\t\\n\\f\\r\\u0001\\u001f\u{7f}é/\",\"fencing_token\":7,\"worker_id\":\"w\"}"
    );
}
