use kron::client::{
    answer_once, api_step, cli_step, normalize_endpoint, pick_token, request_once, token_from_env,
    Answer, ClientStep, ClientToken, Field,
};
use kron::http::{
    answered, check_replication, read_response, route_http, take_in, write_json,
    write_replication, write_request, Found, Intake, Route,
};
use kron::ipc::{
    endpoint_in, generate_secret_token, listen_address, port_path, response_of, secure_eq,
    socket_path, token_in, token_path, IpcResponse,
};

fn head(extra: &str) -> String {
    format!("POST /v1/timers HTTP/1.1\r\nHost: x\r\n{extra}")
}

#[test]
fn heads_of_requests_are_taken_in() {
    let text = head("Content-Length: 12\r\nAUTHORIZATION:  Bearer secret \r\n");
    assert_eq!(
        take_in(&text, "secret"),
        Intake::Read {
            method: "POST".to_string(),
            path: "/v1/timers".to_string(),
            content_length: 12,
            authorized: true,
        }
    );
    match take_in(&head("Authorization: Bearer other\r\n"), "secret") {
        Intake::Read { content_length, authorized, .. } => {
            assert_eq!(content_length, 0);
            assert!(!authorized);
        }
        other => panic!("unexpected intake {other:?}"),
    }
}

#[test]
fn bad_and_large_requests_are_rejected() {
    assert_eq!(
        take_in("", "t"),
        Intake::Reject { status: 400, error: "bad request".to_string() }
    );
    assert_eq!(
        take_in("GET\r\n", "t"),
        Intake::Reject { status: 400, error: "bad request".to_string() }
    );
    assert_eq!(
        take_in(&head("content-length: 1048577\r\n"), "t"),
        Intake::Reject { status: 413, error: "request body too large".to_string() }
    );
    assert!(matches!(
        take_in(&head("content-length: 1048576\r\n"), "t"),
        Intake::Read { content_length: 1048576, .. }
    ));
    assert!(matches!(
        take_in(&head("content-length: x\r\ncontent-length: 3\r\n"), "t"),
        Intake::Read { content_length: 3, .. }
    ));
}

#[test]
fn routes_are_found() {
    let cases = [
        ("POST", "/v1/timers", Route::CreateTimer),
        ("GET", "/v1/timers/", Route::ListTimers),
        ("GET", "/v1/timers/a", Route::TimerStatus { name: "a".to_string() }),
        ("GET", "/v1/timers/a/history", Route::TimerHistory { name: "a".to_string() }),
        ("POST", "/v1/workers/register", Route::RegisterWorker),
        ("POST", "/v1/workers/heartbeat", Route::HeartbeatWorker),
        ("POST", "v1/workers/poll", Route::PollWorker),
        ("POST", "/v1/runs/r/succeed", Route::CompleteRun { run_id: "r".to_string() }),
        ("POST", "/v1/runs/r/fail", Route::FailRun { run_id: "r".to_string() }),
        ("GET", "/v1/cluster/status", Route::ClusterStatus),
        ("POST", "/v1/cluster/join", Route::JoinCluster),
        ("POST", "/v1/cluster/leave", Route::LeaveCluster),
        ("POST", "/v1/raft/apply", Route::ApplyCommand),
        ("POST", "/v1/runtime/shutdown", Route::Shutdown),
        ("DELETE", "/v1/timers", Route::NotFound),
        ("GET", "/v2/timers", Route::NotFound),
        ("GET", "/", Route::NotFound),
        ("GET", "/v1/timers/a/b/c", Route::NotFound),
    ];
    for (method, path, route) in cases {
        assert_eq!(route_http(method, path), route, "{method} {path}");
    }
}

#[test]
fn responses_are_written_and_read() {
    let text = write_json(404, "{\"error\":\"é\"}");
    assert_eq!(
        text,
        "HTTP/1.1 404 Not Found\r\nContent-Type: application/json\r\nContent-Length: 14\r\nConnection: close\r\n\r\n{\"error\":\"é\"}"
    );
    assert_eq!(read_response(&text).unwrap(), (404, "{\"error\":\"é\"}".to_string()));
    for (status, reason) in [(200, "OK"), (400, "Bad Request"), (401, "Unauthorized"), (413, "OK")] {
        let text = write_json(status, "null");
        assert!(text.starts_with(&format!("HTTP/1.1 {status} {reason}\r\n")));
        assert_eq!(read_response(&text).unwrap(), (status, "null".to_string()));
    }
    assert_eq!(read_response("HTTP/1.1 200 OK\r\n").unwrap_err(), "invalid HTTP response");
    assert_eq!(
        read_response("HTTP/1.1\r\n\r\nx").unwrap_err(),
        "invalid HTTP status line"
    );
    assert_eq!(
        answer_once("HTTP/1.1 99999 X\r\n\r\nx").unwrap_err(),
        "invalid HTTP status line"
    );
}

#[test]
fn requests_are_written_as_servers_take_them_in() {
    let text = write_request("GET", "/v1/timers", "host:1", "secret", "");
    assert_eq!(
        text,
        "GET /v1/timers HTTP/1.1\r\nHost: host:1\r\nAuthorization: Bearer secret\r\nContent-Type: application/json\r\nContent-Length: 0\r\nConnection: close\r\n\r\n"
    );
    let body = "{\"a\":1}";
    let text = request_once(" http://host:1/ ", "secret", "POST", "/p", &Some(body.to_string()));
    let (head, rest) = text.split_once("\r\n\r\n").unwrap();
    assert_eq!(rest, body);
    assert_eq!(
        take_in(&format!("{head}\r\n"), "secret"),
        Intake::Read {
            method: "POST".to_string(),
            path: "/p".to_string(),
            content_length: body.len() as u64,
            authorized: true,
        }
    );
}

#[test]
fn commands_are_handed_to_peers() {
    let text = write_replication("peer:1", "t", "{}");
    assert!(text.starts_with("POST /v1/raft/apply HTTP/1.1\r\nHost: peer:1\r\n"));
    assert!(check_replication("n2", "HTTP/1.1 200 OK\r\n\r\n{}").is_ok());
    assert_eq!(
        check_replication("n2", "HTTP/1.1 500 X").unwrap_err().message(),
        "IPC unavailable: peer n2 rejected replication"
    );
}

fn text(t: &str) -> Field {
    Field::Text(t.to_string())
}

fn answer(status: u16, error: Field, leader: Field) -> Answer {
    Answer {
        status,
        error,
        message: Field::Missing,
        leader_http: leader,
    }
}

#[test]
fn clients_follow_one_hint_to_the_leader() {
    let redirect = || answer(409, text("not_leader"), text(" http://leader:2/ "));
    assert_eq!(
        cli_step(true, "host:1", "host:1", &redirect()),
        ClientStep::Follow { endpoint: "leader:2".to_string() }
    );
    assert_eq!(
        cli_step(false, "host:1", "leader:2", &redirect()),
        ClientStep::Fail { message: "HTTP 409: not_leader".to_string() }
    );
    assert_eq!(
        api_step(false, "host:1", "http://leader:2", &redirect()),
        ClientStep::Fail { message: "HTTP 409 from leader:2: not_leader".to_string() }
    );
    assert_eq!(
        cli_step(true, "host:1", "host:1", &answer(409, text("not_leader"), text("  "))),
        ClientStep::Fail { message: "HTTP 409: not_leader".to_string() }
    );
    let done = answer(200, Field::Missing, Field::Missing);
    assert_eq!(
        cli_step(true, "http://host:1", "host:1", &done),
        ClientStep::Done { moved_to: None }
    );
    assert_eq!(
        cli_step(false, "host:1", "leader:2", &done),
        ClientStep::Done { moved_to: Some("leader:2".to_string()) }
    );
}

#[test]
fn failures_say_what_the_answer_says() {
    let mut failure = answer(500, Field::Missing, Field::Missing);
    assert_eq!(
        cli_step(true, "h", "h", &failure),
        ClientStep::Fail { message: "HTTP 500: server request failed".to_string() }
    );
    assert_eq!(
        api_step(true, "h", "h", &failure),
        ClientStep::Fail { message: "HTTP 500 from h: HTTP request failed".to_string() }
    );
    failure.message = text("why");
    assert_eq!(
        cli_step(true, "h", "h", &failure),
        ClientStep::Fail { message: "HTTP 500: why".to_string() }
    );
    failure.error = Field::Other;
    assert_eq!(
        cli_step(true, "h", "h", &failure),
        ClientStep::Fail { message: "HTTP 500: server request failed".to_string() }
    );
}

#[test]
fn addresses_are_normalized() {
    assert_eq!(normalize_endpoint(" http://127.0.0.1:7379/ \n"), "127.0.0.1:7379");
    assert_eq!(normalize_endpoint("http://http://x//"), "x");
    assert_eq!(normalize_endpoint("https://x"), "https://x");
}

#[test]
fn the_token_with_the_most_rights_is_picked() {
    let token = |role: &str, token: Option<&str>| ClientToken {
        token: token.map(|t| t.to_string()),
        role: role.to_string(),
    };
    let tokens = vec![
        token("reader", Some("r")),
        token("admin", None),
        token("operator", Some("o")),
    ];
    assert_eq!(pick_token(&tokens).unwrap(), "o");
    assert_eq!(
        pick_token(&vec![token("admin", None)]).unwrap_err(),
        "kron.tokens.json does not contain a usable token"
    );
    assert_eq!(token_from_env(Some("x".to_string())).as_deref(), Some("x"));
    assert_eq!(token_from_env(Some("  ".to_string())), None);
    assert_eq!(token_from_env(None), None);
}

#[test]
fn secrets_and_the_files_of_an_engine() {
    assert!(secure_eq(b"abc", b"abc"));
    assert!(!secure_eq(b"abc", b"abd"));
    assert!(!secure_eq(b"abc", b"ab"));
    assert!(secure_eq(b"", b""));
    let secret = generate_secret_token();
    assert_eq!(secret.len(), 26);
    assert_eq!(secret, secret.to_lowercase());
    assert_ne!(secret, generate_secret_token());
    assert_eq!(token_in(" t\n"), "t");
    assert_eq!(endpoint_in("127.0.0.1:5\n"), "127.0.0.1:5");
    assert_eq!(socket_path("d"), "d/kron.sock");
    assert_eq!(token_path("d"), "d/kron.token");
    assert_eq!(port_path("d"), "d/kron.port");
    assert_eq!(listen_address(None, None), ("127.0.0.1".to_string(), 0));
    assert_eq!(
        listen_address(Some("0.0.0.0".to_string()), Some("8080".to_string())),
        ("0.0.0.0".to_string(), 8080)
    );
    assert_eq!(listen_address(None, Some("70000".to_string())).1, 0);
}

#[test]
fn answers_carry_data_or_a_message() {
    assert_eq!(
        response_of(Ok("1".to_string())),
        IpcResponse::Success { data: "1".to_string() }
    );
    assert_eq!(
        response_of(Err(kron::error::KronError::AlreadyStopped)),
        IpcResponse::Error { message: "engine has already been shut down".to_string() }
    );
}

#[test]
fn what_is_found_decides_the_status() {
    let error = |text: &str| Some(text.to_string());
    assert_eq!(answered(Found::Nobody), (401, error("unauthorized")));
    assert_eq!(answered(Found::Value), (200, None));
    assert_eq!(answered(Found::Nothing), (404, error("not found")));
    assert_eq!(answered(Found::Failure("boom".to_string())), (400, error("boom")));
}
