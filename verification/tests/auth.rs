use kron::audit::sha256_hex_of;
use kron::openraft_adapter::auth::{
    audit, audit_outcome, authed, authenticate, authenticate_given, failure_status, json_part, tenant_matches,
    Action, AuthContext, AuthRole, TokenEntry, TokenFile, Verdict,
};
use kron::timestamp::Timestamp;

fn now() -> Timestamp {
    Timestamp::new(1_781_000_000, 0).unwrap()
}

#[test]
fn auth_roles_allow_only_expected_actions() {
    assert!(AuthRole::Admin.allows(AuthRole::Raft));
    assert!(AuthRole::Admin.allows(AuthRole::Operator));
    assert!(AuthRole::Operator.allows(AuthRole::Reader));
    assert!(AuthRole::Operator.allows(AuthRole::Operator));
    assert!(!AuthRole::Operator.allows(AuthRole::Worker));
    assert!(AuthRole::Worker.allows(AuthRole::Worker));
    assert!(!AuthRole::Worker.allows(AuthRole::Reader));
    assert!(AuthRole::Reader.allows(AuthRole::Reader));
    assert!(!AuthRole::Reader.allows(AuthRole::Operator));
    assert!(AuthRole::Raft.allows(AuthRole::Raft));
    assert!(!AuthRole::Raft.allows(AuthRole::Reader));
}

#[test]
fn tenant_match_restricts_scoped_tokens() {
    assert!(tenant_matches(None, Some("tenant-a")));
    assert!(tenant_matches(Some("*"), Some("tenant-a")));
    assert!(tenant_matches(Some("tenant-a"), Some("tenant-a")));
    assert!(!tenant_matches(Some("tenant-a"), Some("tenant-b")));
    assert!(!tenant_matches(Some("tenant-a"), None));
}

fn entry(name: &str, role: AuthRole) -> TokenEntry {
    TokenEntry {
        name: name.to_string(),
        token: None,
        token_sha256: None,
        role,
        tenant_id: None,
        not_before: None,
        expires_at: None,
    }
}

fn bearer(token: &str) -> Option<String> {
    Some(format!("Bearer {token}"))
}

#[test]
fn the_token_of_the_server_is_that_of_an_administrator() {
    let context = authenticate(&bearer("secret"), &TokenFile::Absent, "secret", now()).unwrap();
    assert_eq!(context.actor, "legacy-admin-token");
    assert_eq!(context.role, AuthRole::Admin);
    assert_eq!(
        authenticate(&bearer("other"), &TokenFile::Absent, "secret", now()).unwrap_err(),
        "unknown token"
    );
    assert_eq!(
        authenticate(&None, &TokenFile::Absent, "secret", now()).unwrap_err(),
        "missing bearer token"
    );
    assert_eq!(
        authenticate(&Some("Basic x".to_string()), &TokenFile::Absent, "secret", now())
            .unwrap_err(),
        "missing bearer token"
    );
}

#[test]
fn tokens_are_known_in_the_clear_or_by_their_digest() {
    let clear = TokenEntry {
        token: Some("plain".to_string()),
        ..entry("reader", AuthRole::Reader)
    };
    let hashed = TokenEntry {
        token_sha256: Some(sha256_hex_of("hidden").to_uppercase()),
        tenant_id: Some("tenant-a".to_string()),
        ..entry("worker-a", AuthRole::Worker)
    };
    let file = TokenFile::Tokens(vec![clear, hashed]);
    let reader = authenticate(&bearer("plain"), &file, "secret", now()).unwrap();
    assert_eq!(reader.role, AuthRole::Reader);
    let worker = authenticate(&bearer("hidden"), &file, "secret", now()).unwrap();
    assert_eq!(worker.actor, "worker-a");
    assert_eq!(worker.tenant_id.as_deref(), Some("tenant-a"));
    assert_eq!(
        authenticate(&bearer("secret"), &file, "secret", now()).unwrap_err(),
        "unknown token"
    );
}

#[test]
fn the_digest_decides_about_hashed_tokens() {
    let digest = "a".repeat(64);
    let file = TokenFile::Tokens(vec![TokenEntry {
        token_sha256: Some(digest.clone()),
        ..entry("w", AuthRole::Worker)
    }]);
    assert!(authenticate_given(&bearer("x"), &digest, &file, "", now()).is_ok());
    assert!(authenticate_given(&bearer("x"), &"b".repeat(64), &file, "", now()).is_err());
}

#[test]
fn tokens_have_a_window() {
    let file = |not_before: Option<Timestamp>, expires_at: Option<Timestamp>| {
        TokenFile::Tokens(vec![TokenEntry {
            token: Some("t".to_string()),
            not_before,
            expires_at,
            ..entry("t", AuthRole::Admin)
        }])
    };
    let at = |file: TokenFile| authenticate(&bearer("t"), &file, "", now());
    assert!(at(file(Some(now()), now().plus(1))).is_ok());
    assert_eq!(
        at(file(now().plus(1), None)).unwrap_err(),
        "token is not active yet"
    );
    assert_eq!(at(file(None, Some(now()))).unwrap_err(), "token has expired");
}

#[test]
fn faulty_files_of_tokens_let_nobody_in() {
    let both = TokenEntry {
        token: Some("t".to_string()),
        token_sha256: Some("a".repeat(64)),
        ..entry("both", AuthRole::Admin)
    };
    let file = TokenFile::Tokens(vec![both]);
    assert_eq!(
        authenticate(&bearer("t"), &file, "t", now()).unwrap_err(),
        "invalid token file: token entry `both` must set exactly one of token or token_sha256"
    );
    let short = TokenEntry {
        token_sha256: Some("abc".to_string()),
        ..entry("short", AuthRole::Admin)
    };
    let file = TokenFile::Tokens(vec![short]);
    assert_eq!(
        authenticate(&bearer("t"), &file, "t", now()).unwrap_err(),
        "invalid token file: token_sha256 of `short` must be a 64-character SHA-256 hex digest"
    );
    let file = TokenFile::Undecodable("bad json".to_string());
    assert_eq!(
        authenticate(&bearer("t"), &file, "t", now()).unwrap_err(),
        "invalid token file: bad json"
    );
    let file = TokenFile::Unreadable("denied".to_string());
    assert_eq!(
        authenticate(&bearer("t"), &file, "t", now()).unwrap_err(),
        "unable to read token file: denied"
    );
}

fn context(role: AuthRole) -> AuthContext {
    AuthContext {
        actor: "someone".to_string(),
        role,
        tenant_id: Some("tenant-a".to_string()),
    }
}

#[test]
fn requests_are_allowed_forbidden_or_unauthorized() {
    assert!(matches!(
        authed(Ok(context(AuthRole::Operator)), Action::CreateTimer),
        Verdict::Allowed(_)
    ));
    match authed(Ok(context(AuthRole::Worker)), Action::CreateTimer) {
        Verdict::Forbidden { required, .. } => assert_eq!(required, AuthRole::Operator),
        other => panic!("unexpected verdict {other:?}"),
    }
    match authed(Err("unknown token".to_string()), Action::PollWorker) {
        Verdict::Unauthorized { reason } => assert_eq!(reason, "unknown token"),
        other => panic!("unexpected verdict {other:?}"),
    }
    assert_eq!(Action::Vote.required_role(), AuthRole::Raft);
    assert_eq!(Action::JoinCluster.required_role(), AuthRole::Admin);
    assert_eq!(Action::FailRun.name(), "run.fail");
}

#[test]
fn notes_tell_who_did_what() {
    let who = context(AuthRole::Worker);
    let note = audit("n1", Some(&who), Action::PollWorker, "ok", 200, None);
    assert_eq!(note.actor, "someone");
    assert_eq!(note.role, "worker");
    assert_eq!(note.tenant_id.as_deref(), Some("tenant-a"));
    assert_eq!(note.action, "worker.poll");
    let note = audit("n1", None, Action::Vote, "unauthorized", 401, Some("x".to_string()));
    assert_eq!(note.actor, "anonymous");
    assert_eq!(note.role, "none");
    assert_eq!(note.reason.as_deref(), Some("x"));
}

#[test]
fn failures_have_a_status() {
    assert_eq!(failure_status(Some("not_leader")), 409);
    assert_eq!(failure_status(Some("other")), 400);
    assert_eq!(failure_status(None), 400);
    assert_eq!(
        json_part("IPC unavailable: {\"error\":1}").as_deref(),
        Some("{\"error\":1}")
    );
    assert_eq!(json_part("nothing"), None);
}

#[test]
fn outcomes_follow_the_verdict() {
    let note = |verdict: &Verdict, failed: bool, error: Option<&str>| {
        let outcome = audit_outcome(verdict, failed, error);
        (outcome.word, outcome.status, outcome.reason)
    };
    let reason = |text: &str| Some(text.to_string());
    let allowed = authed(Ok(context(AuthRole::Admin)), Action::FailRun);
    assert_eq!(note(&allowed, false, None), ("ok", 200, None));
    assert_eq!(note(&allowed, true, Some("boom")), ("error", 400, reason("boom")));
    assert_eq!(note(&allowed, true, None), ("error", 400, None));
    assert_eq!(
        note(&allowed, true, Some("not_leader")),
        ("error", 409, reason("not_leader"))
    );
    let forbidden = authed(Ok(context(AuthRole::Reader)), Action::FailRun);
    assert_eq!(
        note(&forbidden, true, Some("forbidden")),
        ("forbidden", 403, reason("worker"))
    );
    let unknown = authed(Err("unknown token".to_string()), Action::FailRun);
    assert_eq!(
        note(&unknown, true, Some("unauthorized")),
        ("unauthorized", 401, reason("unknown token"))
    );
}
