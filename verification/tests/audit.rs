use kron::audit::{
    append, audit_path, check_record, compute_hash, parse_bound, query, read_last_state,
    read_last_state_unverified, sha256_hex_of, tail_start, verify, AuditNote, AuditQuery,
    AuditRecord, AuditState,
};
use kron::log::{kept_lines, ParsedLine};
use kron::timestamp::Timestamp;

fn ts() -> Timestamp {
    let t = chrono::DateTime::parse_from_rfc3339("2026-06-10T10:00:00+00:00").unwrap();
    Timestamp::new(t.timestamp(), t.timestamp_subsec_nanos()).unwrap()
}

fn record(seq: u64, prev_hash: String, action: &str) -> AuditRecord {
    let mut record = AuditRecord {
        seq,
        ts: ts(),
        node_id: "n1".to_string(),
        action: action.to_string(),
        outcome: "ok".to_string(),
        status: 200,
        actor: "worker".to_string(),
        role: "worker".to_string(),
        tenant_id: Some("tenant-a".to_string()),
        reason: None,
        prev_hash,
        hash: String::new(),
    };
    record.hash = compute_hash(&record);
    record
}

fn lines(records: &[AuditRecord]) -> Vec<ParsedLine<AuditRecord>> {
    records
        .iter()
        .map(|record| ParsedLine::Value(record.clone()))
        .collect()
}

#[test]
fn verifies_hash_chain() {
    let first = record(1, String::new(), "worker.poll");
    let second = record(2, first.hash.clone(), "run.succeed");
    let all = [first, second];
    let result = verify(lines(&all)).unwrap();
    assert_eq!(result.records, 2);
    let state = read_last_state(lines(&all)).unwrap();
    assert_eq!(state.seq, 2);
    assert_eq!(state.hash, all[1].hash);
}

#[test]
fn rejects_tampered_hash_chain() {
    let mut first = record(1, String::new(), "worker.poll");
    first.actor = "attacker".to_string();
    let err = verify(lines(&[first])).unwrap_err();
    assert!(err.contains("hash mismatch"));
}

#[test]
fn rejects_missing_sequence_number() {
    let first = record(1, String::new(), "worker.poll");
    let second = record(3, first.hash.clone(), "run.succeed");
    let err = verify(lines(&[first, second])).unwrap_err();
    assert!(err.contains("sequence mismatch"));
}

#[test]
fn ignores_truncated_final_audit_tail() {
    let first = record(1, String::new(), "worker.poll");
    let hash = first.hash.clone();
    let tail = || ParsedLine::Broken {
        eof: true,
        message: "EOF while parsing a value".to_string(),
    };
    let mut all = lines(&[first.clone()]);
    all.push(tail());
    let result = verify(all).unwrap();
    assert_eq!(result.records, 1);
    let mut all = lines(&[first]);
    all.push(tail());
    let state = read_last_state(all).unwrap();
    assert_eq!(state.seq, 1);
    assert_eq!(state.hash, hash);
}

#[test]
fn hash_is_the_digest_of_the_canonical_json() {
    let first = record(1, String::new(), "worker.poll");
    let canonical = concat_canonical();
    assert_eq!(first.hash, sha256_hex_of(&canonical));
    assert_eq!(
        sha256_hex_of("abc"),
        "ba7816bf8f01cfea414140de5dae2223b00361a396177a9cb410ff61f20015ad"
    );
}

fn concat_canonical() -> String {
    let mut map = serde_json::Map::new();
    let mut put = |key: &str, value: serde_json::Value| {
        map.insert(key.to_string(), value);
    };
    put("action", "worker.poll".into());
    put("actor", "worker".into());
    put("node_id", "n1".into());
    put("outcome", "ok".into());
    put("prev_hash", "".into());
    put("reason", serde_json::Value::Null);
    put("role", "worker".into());
    put("seq", 1.into());
    put("status", 200.into());
    put("tenant_id", "tenant-a".into());
    put("ts", "2026-06-10T10:00:00+00:00".into());
    serde_json::Value::Object(map).to_string()
}

#[test]
fn appending_continues_the_chain() {
    let note = |action: &str| AuditNote {
        node_id: "n1".to_string(),
        action: action.to_string(),
        outcome: "ok".to_string(),
        status: 200,
        actor: "a\"quoted\"".to_string(),
        role: "admin".to_string(),
        tenant_id: None,
        reason: Some("why".to_string()),
    };
    let start = read_last_state(Vec::new()).unwrap();
    assert_eq!(start.seq, 0);
    assert_eq!(start.hash, "");
    let first = append(&start, ts(), note("one"));
    let second = append(
        &AuditState {
            seq: first.seq,
            hash: first.hash.clone(),
        },
        ts(),
        note("two"),
    );
    assert_eq!(second.seq, 2);
    assert_eq!(second.prev_hash, first.hash);
    assert_eq!(verify(lines(&[first, second])).unwrap().records, 2);
}

#[test]
fn removed_and_replaced_records_are_found() {
    let first = record(1, String::new(), "one");
    let second = record(2, first.hash.clone(), "two");
    let third = record(3, second.hash.clone(), "three");
    assert!(verify(lines(&[first.clone(), third.clone()])).is_err());
    let forged = record(2, first.hash.clone(), "forged");
    assert!(verify(lines(&[first, forged, third])).is_err());
}

#[test]
fn broken_middle_of_the_trail_is_an_error() {
    let first = record(1, String::new(), "one");
    let second = record(2, first.hash.clone(), "two");
    let make = || {
        vec![
            ParsedLine::Value(first.clone()),
            ParsedLine::Broken {
                eof: false,
                message: "bad".to_string(),
            },
            ParsedLine::Value(second.clone()),
        ]
    };
    assert!(verify(make()).is_err());
    assert!(read_last_state(make()).is_err());
    assert!(read_last_state_unverified(make()).is_err());
    let state = read_last_state_unverified(lines(&[first.clone(), second.clone()])).unwrap();
    assert_eq!(state.seq, 2);
}

#[test]
fn records_are_checked_one_by_one() {
    let first = record(1, String::new(), "one");
    assert_eq!(check_record(&first, 1, "", &first.hash), None);
    assert!(check_record(&first, 2, "", &first.hash)
        .unwrap()
        .contains("sequence mismatch"));
    assert!(check_record(&first, 1, "x", &first.hash).is_some());
    assert!(check_record(&first, 1, "", "x")
        .unwrap()
        .contains("hash mismatch"));
}

#[test]
fn queries_select_records() {
    let mut one = record(1, String::new(), "worker.poll");
    one.actor = "a".to_string();
    let two = record(2, String::new(), "run.succeed");
    let all = vec![one, two];
    let everything = AuditQuery {
        actor: None,
        action: None,
        from: None,
        to: None,
    };
    assert_eq!(query(&all, &everything).len(), 2);
    let by_actor = AuditQuery {
        actor: Some("a".to_string()),
        action: None,
        from: None,
        to: None,
    };
    assert_eq!(query(&all, &by_actor).len(), 1);
    let later = AuditQuery {
        actor: None,
        action: None,
        from: ts().plus(1),
        to: None,
    };
    assert_eq!(query(&all, &later).len(), 0);
    let until = AuditQuery {
        actor: None,
        action: Some("run.succeed".to_string()),
        from: Some(ts()),
        to: Some(ts()),
    };
    assert_eq!(query(&all, &until).len(), 1);
}

#[test]
fn bounds_are_instants_or_days() {
    let day = Some("2026-06-10".to_string());
    let start = parse_bound(&day, false).unwrap().unwrap();
    let end = parse_bound(&day, true).unwrap().unwrap();
    assert_eq!(end.secs() - start.secs(), 86_399);
    assert_eq!(
        parse_bound(&Some("2026-06-10T10:00:00+00:00".to_string()), true).unwrap(),
        Some(ts())
    );
    assert_eq!(parse_bound(&None, true).unwrap(), None);
    let message = parse_bound(&Some("soon".to_string()), false).unwrap_err();
    assert!(message.starts_with("invalid date `soon`: "));
}

#[test]
fn tails_and_paths() {
    assert_eq!(tail_start(10, 3), 7);
    assert_eq!(tail_start(2, 3), 0);
    assert_eq!(audit_path("dir"), "dir/kron.audit.jsonl");
}

#[test]
fn a_trail_is_continued_behind_its_last_whole_record() {
    let note = |action: &str| AuditNote {
        node_id: "n1".to_string(),
        action: action.to_string(),
        outcome: "ok".to_string(),
        status: 200,
        actor: "anonymous".to_string(),
        role: "none".to_string(),
        tenant_id: None,
        reason: None,
    };
    let cut = |eof: bool| ParsedLine::Broken {
        eof,
        message: "EOF".to_string(),
    };
    let trail = || lines(&[record(1, String::new(), "worker.poll")]);

    let mut cut_off = trail();
    cut_off.push(cut(true));
    cut_off.push(ParsedLine::Blank);
    assert_eq!(kept_lines(&cut_off), 1);
    let state = read_last_state(cut_off).unwrap();
    let next = append(&state, ts(), note("run.fail"));
    assert_eq!(next.seq, 2);
    assert_eq!(next.hash, compute_hash(&next));
    let mut longer = trail();
    longer.push(ParsedLine::Value(next.clone()));
    assert_eq!(verify(longer).unwrap().records, 2);

    let mut behind_the_tail = trail();
    behind_the_tail.push(cut(true));
    behind_the_tail.push(ParsedLine::Value(next));
    assert_eq!(kept_lines(&behind_the_tail), 3);
    assert!(verify(behind_the_tail).is_err());

    assert_eq!(kept_lines(&trail()), 1);
    assert_eq!(kept_lines(&Vec::<ParsedLine<AuditRecord>>::new()), 0);
    let mut changed = trail();
    changed.push(cut(false));
    assert_eq!(kept_lines(&changed), 2);
}
