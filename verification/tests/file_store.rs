use kron::cluster::{DistributedTimerSpec, NodeInfo, RaftCommand, TimerTarget, WorkerRun};
use kron::openraft_adapter::entry_log::{
    contains, EntryPayload, IndexBound, LogId, StoredEntry,
};
use kron::openraft_adapter::file_store::{
    check_legacy_store, check_manifest, missing_snapshot_io, KronRaftFileStore,
    PersistedStateMachine, StoredMembership, StoredVote,
};
use kron::openraft_adapter::segment::{
    check_entry, checksum32, encode_log_record, read_log_segments, read_segment_file,
    rewrite_log_segments, segment_file_name, LogRecord, SegmentFault,
};
use kron::retry::RetryPolicy;
use kron::schedule::Schedule;
use kron::timer::{RunId, TimerId, TimerState};
use kron::timestamp::Timestamp;

fn now() -> Timestamp {
    Timestamp::new(1_781_000_000, 0).unwrap()
}

fn log_id(index: u64) -> LogId {
    LogId {
        term: 1,
        node_id: 1,
        index,
    }
}

fn timer_spec(name: &str) -> DistributedTimerSpec {
    DistributedTimerSpec {
        id: TimerId::new(name),
        tenant_id: None,
        schedule: Schedule::Every { seconds: 60 },
        retry: RetryPolicy::default(),
        timezone: "UTC".to_string(),
        target: TimerTarget::WorkerTask {
            task: "send_digest".to_string(),
            payload: "{\"list\":\"daily\"}".to_string(),
        },
        created_at: now(),
    }
}

fn create_timer_entry(index: u64, name: &str) -> StoredEntry {
    let spec = timer_spec(name);
    let next_run_at = spec
        .schedule
        .next_run_after(spec.created_at, &spec.timezone)
        .unwrap();
    StoredEntry {
        log_id: log_id(index),
        payload: EntryPayload::Normal(RaftCommand::CreateTimer { spec, next_run_at }),
    }
}

fn claim_entry(index: u64, timer: &str, run: &str, token: u64) -> StoredEntry {
    StoredEntry {
        log_id: log_id(index),
        payload: EntryPayload::Normal(RaftCommand::ClaimRun {
            timer_id: TimerId::new(timer),
            run_id: RunId(run.to_string()),
            worker_id: "worker-1".to_string(),
            fencing_token: token,
            attempt: 1,
            lease_deadline: now().plus(30).unwrap(),
        }),
    }
}

fn command_entry(index: u64, command: RaftCommand) -> StoredEntry {
    StoredEntry {
        log_id: log_id(index),
        payload: EntryPayload::Normal(command),
    }
}

fn machine() -> PersistedStateMachine {
    PersistedStateMachine::new("{}".to_string())
}

fn store() -> KronRaftFileStore {
    KronRaftFileStore::open(None, None, None, Vec::new(), machine())
}

fn all(store: &KronRaftFileStore) -> Vec<StoredEntry> {
    store.try_get_log_entries(IndexBound::Unbounded, IndexBound::Unbounded)
}

fn reopen(store: KronRaftFileStore) -> KronRaftFileStore {
    let entries = all(&store);
    KronRaftFileStore::open(
        store.vote,
        store.committed,
        store.last_purged_log_id,
        entries,
        store.state_machine,
    )
}

fn records(entries: &[StoredEntry]) -> Vec<LogRecord> {
    entries
        .iter()
        .map(|entry| LogRecord {
            term: entry.log_id.term,
            index: entry.log_id.index,
            payload: format!("entry {}", entry.log_id.index).into_bytes(),
        })
        .collect()
}

#[test]
fn appends_logs_and_reopens_from_disk() {
    let mut store = store();
    store.append(vec![create_timer_entry(1, "email_digest")]);

    let reopened = reopen(store);
    assert_eq!(reopened.get_log_state().1, Some(log_id(1)));

    let entries = reopened.try_get_log_entries(IndexBound::Included(1), IndexBound::Excluded(2));
    assert_eq!(entries.len(), 1);
    assert_eq!(entries[0].log_id, log_id(1));
}

#[test]
fn applies_timer_commands_to_state_machine_and_snapshot() {
    let mut store = store();

    let responses = store.apply(&vec![create_timer_entry(1, "email_digest")]);
    assert_eq!(responses.len(), 1);
    assert!(responses[0].applied);

    let state = &store.state_machine;
    assert_eq!(state.last_applied_log_id, Some(log_id(1)));
    let timer = state.timers.get("email_digest").unwrap();
    assert_eq!(timer.state, TimerState::Scheduled);
    assert_eq!(timer.fencing_token, 0);
    assert_eq!(state.history.len(), 1);
}

#[test]
fn duplicate_claim_for_same_timer_is_noop() {
    let mut store = store();
    store.apply(&vec![
        create_timer_entry(1, "email_digest"),
        claim_entry(2, "email_digest", "run_1", 1),
        claim_entry(3, "email_digest", "run_2", 2),
    ]);

    let state = store.app_state();
    assert_eq!(state.active_runs.len(), 1);
    assert!(state.active_runs.contains("run_1"));
    assert!(!state.active_runs.contains("run_2"));
}

#[test]
fn membership_entries_update_state_machine_membership() {
    let mut store = store();
    let membership = "{\"configs\":[[1,2,3]],\"nodes\":{}}".to_string();
    store.apply(&vec![StoredEntry {
        log_id: log_id(2),
        payload: EntryPayload::Membership(membership.clone()),
    }]);

    let state = &store.state_machine;
    assert_eq!(state.last_applied_log_id, Some(log_id(2)));
    assert_eq!(state.last_membership.membership, membership);
    assert_eq!(state.last_membership.log_id, Some(log_id(2)));
}

#[test]
fn truncate_and_purge_persist_across_reopen() {
    let mut store = store();
    store.append(vec![
        create_timer_entry(1, "one"),
        create_timer_entry(2, "two"),
        create_timer_entry(3, "three"),
    ]);

    store.truncate(log_id(3));
    store.purge(log_id(1));

    let reopened = reopen(store);
    let entries = all(&reopened);
    assert_eq!(entries.len(), 1);
    assert_eq!(entries[0].log_id, log_id(2));
    let (purged, last) = reopened.get_log_state();
    assert_eq!(purged, Some(log_id(1)));
    assert_eq!(last, Some(log_id(2)));
}

#[test]
fn segmented_store_writes_manifest_and_segments() {
    let mut store = store();
    store.append(vec![
        create_timer_entry(1, "one"),
        create_timer_entry(2, "two"),
    ]);
    let segments = rewrite_log_segments(&records(&all(&store)));
    assert_eq!(segments.len(), 1);
    assert_eq!(segments[0].first_index, 1);
    assert_eq!(segments[0].last_index, 2);
    assert_eq!(segments[0].file, segment_file_name(1, 2));
    assert!(check_manifest(1).is_ok());
    assert!(check_manifest(2).is_err());
}

#[test]
fn open_rejects_legacy_json_raft_store() {
    let err = check_legacy_store(true).unwrap_err();
    assert!(err.contains("alpha JSON Raft storage requires manual migration"));
    assert!(check_legacy_store(false).is_ok());
}

#[test]
fn corrupt_middle_segment_record_fails_loudly() {
    let entries = [create_timer_entry(1, "one"), create_timer_entry(2, "two")];
    let segments = rewrite_log_segments(&records(&entries));
    let mut bytes = segments[0].bytes.clone();
    let mut first = Vec::new();
    encode_log_record(&records(&entries)[0], &mut first);
    bytes[first.len() + 2] ^= 0xff;
    let scan = read_segment_file(&bytes);
    let message = scan.fault.unwrap().message();
    assert!(
        message.contains("magic") || message.contains("checksum") || message.contains("header")
    );
}

#[test]
fn truncated_final_segment_tail_is_ignored_deterministically() {
    let entries = [create_timer_entry(1, "one"), create_timer_entry(2, "two")];
    let segments = rewrite_log_segments(&records(&entries));
    let mut bytes = segments[0].bytes.clone();
    bytes.truncate(bytes.len() - 10);
    let scan = read_segment_file(&bytes);
    assert!(scan.fault.is_none());
    assert_eq!(scan.records.len(), 1);
    assert_eq!(scan.records[0].index, 1);
}

#[test]
fn every_fault_of_a_segment_is_told() {
    let record = LogRecord {
        term: 3,
        index: 9,
        payload: vec![1, 2, 3],
    };
    let mut bytes = Vec::new();
    encode_log_record(&record, &mut bytes);
    let scan = read_segment_file(&bytes);
    assert_eq!(scan.records, vec![LogRecord { term: 3, index: 9, payload: vec![1, 2, 3] }]);

    let mut magic = bytes.clone();
    magic[0] ^= 1;
    assert_eq!(read_segment_file(&magic).fault, Some(SegmentFault::BadMagic));
    let mut version = bytes.clone();
    version[8] ^= 1;
    assert_eq!(read_segment_file(&version).fault, Some(SegmentFault::BadVersion));
    let mut payload = bytes.clone();
    let last = payload.len() - 1;
    payload[last] ^= 1;
    assert_eq!(read_segment_file(&payload).fault, Some(SegmentFault::BadChecksum));
    assert!(check_entry(&record, 3, 9).is_ok());
    assert_eq!(check_entry(&record, 3, 8).unwrap_err(), SegmentFault::HeaderMismatch);
}

#[test]
fn short_files_that_hold_no_record_are_faults() {
    let record = LogRecord {
        term: 1,
        index: 1,
        payload: vec![7; 20],
    };
    let mut bytes = Vec::new();
    encode_log_record(&record, &mut bytes);
    let head = bytes[..10].to_vec();
    assert_eq!(read_segment_file(&head).fault, Some(SegmentFault::TruncatedHeader));
    let cut = bytes[..bytes.len() - 1].to_vec();
    assert_eq!(read_segment_file(&cut).fault, Some(SegmentFault::TruncatedPayload));
    assert!(read_segment_file(&Vec::new()).fault.is_none());
}

#[test]
fn checksums_are_fnv() {
    assert_eq!(checksum32(&Vec::new()), 0x811c9dc5);
    assert_eq!(checksum32(&b"a".to_vec()), 0xe40c292c);
    assert_eq!(checksum32(&b"foobar".to_vec()), 0xbf9cf968);
}

#[test]
fn long_logs_take_several_segments() {
    let records: Vec<LogRecord> = [40_000_000, 40_000_000, 10]
        .iter()
        .enumerate()
        .map(|(at, size)| LogRecord {
            term: 1,
            index: at as u64 + 1,
            payload: vec![at as u8; *size],
        })
        .collect();
    let segments = rewrite_log_segments(&records);
    assert_eq!(segments.len(), 2);
    let mut read = Vec::new();
    for segment in &segments {
        let scan = read_segment_file(&segment.bytes);
        assert!(scan.fault.is_none());
        read.extend(scan.records);
    }
    assert_eq!(read, records);
}

#[test]
fn finished_runs_let_the_next_one_in() {
    let mut store = store();
    store.apply(&vec![
        create_timer_entry(1, "t"),
        claim_entry(2, "t", "run_1", 1),
        command_entry(
            3,
            RaftCommand::CompleteRun {
                run_id: RunId("run_1".to_string()),
                worker_id: "worker-2".to_string(),
                fencing_token: 1,
                completed_at: now(),
            },
        ),
    ]);
    assert_eq!(store.app_state().active_runs.len(), 1);
    store.apply(&vec![
        command_entry(
            4,
            RaftCommand::CompleteRun {
                run_id: RunId("run_1".to_string()),
                worker_id: "worker-1".to_string(),
                fencing_token: 1,
                completed_at: now().plus(5).unwrap(),
            },
        ),
        claim_entry(5, "t", "run_2", 2),
    ]);
    let state = store.app_state();
    assert!(state.active_runs.contains("run_2"));
    assert_eq!(state.timers.get("t").unwrap().fencing_token, 2);
    assert_eq!(state.timers.get("t").unwrap().state, TimerState::Running);
}

#[test]
fn failed_runs_are_tried_again_until_the_attempts_are_used_up() {
    let mut store = store();
    let fail = |index: u64, fencing_token: u64| {
        command_entry(
            index,
            RaftCommand::FailRun {
                run_id: RunId("run_1".to_string()),
                worker_id: "worker-1".to_string(),
                fencing_token,
                error: "boom".to_string(),
                failed_at: now(),
            },
        )
    };
    store.apply(&vec![
        create_timer_entry(1, "t"),
        claim_entry(2, "t", "run_1", 1),
        fail(3, 1),
    ]);
    let state = store.app_state();
    assert_eq!(state.active_runs.len(), 0);
    assert_eq!(state.timers.get("t").unwrap().state, TimerState::Retrying);
    assert_eq!(state.timers.get("t").unwrap().fencing_token, 2);
    assert_eq!(state.pending.len(), 1);
    assert_eq!(state.pending[0].run_id, "run_1");
    assert_eq!(state.pending[0].attempt, 2);
    assert_eq!(state.pending[0].fencing_token, 2);
    assert_eq!(state.history.last().unwrap().error.as_deref(), Some("boom"));
    let before = state.history.len();
    store.apply(&vec![fail(4, 1)]);
    assert_eq!(store.app_state().history.len(), before);
    store.apply(&vec![
        command_entry(
            5,
            RaftCommand::ClaimRun {
                timer_id: TimerId::new("t"),
                run_id: RunId("run_1".to_string()),
                worker_id: "worker-1".to_string(),
                fencing_token: 2,
                attempt: 3,
                lease_deadline: now().plus(30).unwrap(),
            },
        ),
        fail(6, 2),
    ]);
    let state = store.app_state();
    assert_eq!(state.timers.get("t").unwrap().state, TimerState::Dead);
    assert_eq!(state.pending.len(), 0);
}

#[test]
fn expired_leases_are_replaced_or_end_the_timer() {
    let mut store = store();
    let expire = |index: u64, replacement: Option<WorkerRun>| {
        command_entry(
            index,
            RaftCommand::ExpireRunLease {
                run_id: RunId("run_1".to_string()),
                replacement,
                expired_at: now(),
            },
        )
    };
    let replacement = WorkerRun {
        timer: "t".to_string(),
        tenant_id: None,
        run_id: "run_1".to_string(),
        task: "send_digest".to_string(),
        payload: "null".to_string(),
        attempt: 2,
        fencing_token: 2,
        idempotency_key: "k".to_string(),
    };
    store.apply(&vec![
        create_timer_entry(1, "t"),
        claim_entry(2, "t", "run_1", 1),
        expire(3, Some(replacement)),
    ]);
    let state = store.app_state();
    assert_eq!(state.active_runs.len(), 0);
    assert_eq!(state.pending.len(), 1);
    assert_eq!(state.timers.get("t").unwrap().state, TimerState::Retrying);
    assert_eq!(state.timers.get("t").unwrap().fencing_token, 2);
    store.apply(&vec![claim_entry(4, "t", "run_1", 2), expire(5, None)]);
    assert_eq!(
        store.app_state().timers.get("t").unwrap().state,
        TimerState::Dead
    );
}

#[test]
fn nodes_come_and_go() {
    let mut store = store();
    let node = NodeInfo {
        node_id: "n2".to_string(),
        http_addr: "h".to_string(),
        raft_addr: "r".to_string(),
    };
    store.apply(&vec![command_entry(1, RaftCommand::AddNode { node })]);
    assert_eq!(store.app_state().nodes.len(), 1);
    store.apply(&vec![command_entry(
        2,
        RaftCommand::RemoveNode {
            node_id: "n2".to_string(),
        },
    )]);
    assert_eq!(store.app_state().nodes.len(), 0);
}

#[test]
fn votes_commits_and_snapshots_are_kept() {
    let mut store = store();
    store.save_vote(StoredVote {
        term: 2,
        node_id: 7,
        committed: true,
    });
    store.save_committed(Some(log_id(4)));
    assert_eq!(store.vote.as_ref().unwrap().term, 2);
    assert_eq!(store.committed, Some(log_id(4)));
    let before = store.snapshot_id();
    store.install_snapshot(
        machine(),
        Some(log_id(9)),
        StoredMembership {
            log_id: None,
            membership: "m".to_string(),
        },
    );
    assert_eq!(store.state_machine.last_applied_log_id, Some(log_id(9)));
    assert_eq!(store.state_machine.last_membership.membership, "m");
    assert_ne!(before, store.snapshot_id());
    assert_eq!(missing_snapshot_io(), "snapshot missing");
}

#[test]
fn bounds_of_indices() {
    assert!(contains(IndexBound::Included(2), IndexBound::Excluded(4), 2));
    assert!(!contains(IndexBound::Included(2), IndexBound::Excluded(4), 4));
    assert!(contains(IndexBound::Excluded(2), IndexBound::Included(4), 4));
    assert!(!contains(IndexBound::Excluded(2), IndexBound::Unbounded, 2));
    assert!(contains(IndexBound::Unbounded, IndexBound::Unbounded, 0));
}

fn record(index: u64) -> LogRecord {
    LogRecord {
        term: 1,
        index,
        payload: format!("entry {index}").into_bytes(),
    }
}

fn bytes_of(indexes: &[u64]) -> Vec<u8> {
    let mut bytes = Vec::new();
    for index in indexes {
        encode_log_record(&record(*index), &mut bytes);
    }
    bytes
}

#[test]
fn only_the_last_segment_of_a_log_may_be_cut_off() {
    let whole = vec![bytes_of(&[1, 2]), bytes_of(&[3, 4])];
    let scan = read_log_segments(&whole);
    assert_eq!(scan.records, vec![record(1), record(2), record(3), record(4)]);
    assert_eq!(scan.fault, None);

    let mut cut_at_the_end = vec![bytes_of(&[1, 2]), bytes_of(&[3, 4])];
    cut_at_the_end[1].pop();
    let scan = read_log_segments(&cut_at_the_end);
    assert_eq!(scan.records, vec![record(1), record(2), record(3)]);
    assert_eq!(scan.fault, None);

    let mut cut_before = vec![bytes_of(&[1, 2]), bytes_of(&[3, 4])];
    cut_before[0].pop();
    let scan = read_log_segments(&cut_before);
    assert_eq!(scan.records, vec![record(1)]);
    assert_eq!(scan.fault, Some(SegmentFault::TruncatedPayload));
    let length = bytes_of(&[1]).len();
    cut_before[0].truncate(length + 10);
    let scan = read_log_segments(&cut_before);
    assert_eq!(scan.fault, Some(SegmentFault::TruncatedHeader));
    assert_eq!(read_log_segments(&Vec::new()).records, Vec::new());
}

#[test]
fn every_changed_byte_of_magic_and_payload_is_reported() {
    let bytes = bytes_of(&[1, 2, 3]);
    let second = bytes_of(&[1]).len();
    let length = bytes_of(&[2]).len();
    for at in (0..8).chain(40..length) {
        let mut changed = bytes.clone();
        changed[second + at] ^= 0x20;
        let scan = read_segment_file(&changed);
        assert_eq!(scan.records, vec![record(1)]);
        let fault = if at < 8 {
            SegmentFault::BadMagic
        } else {
            SegmentFault::BadChecksum
        };
        assert_eq!(scan.fault, Some(fault));
    }
}

#[test]
fn a_failed_run_of_another_target_leaves_its_timer_scheduled() {
    for (attempt, state) in [(1, TimerState::Scheduled), (3, TimerState::Dead)] {
        let mut store = store();
        let mut spec = timer_spec("t");
        spec.target = TimerTarget::EmbeddedFn { name: "f".to_string() };
        store.apply(&vec![
            command_entry(1, RaftCommand::CreateTimer { spec, next_run_at: Some(now()) }),
            command_entry(
                2,
                RaftCommand::ClaimRun {
                    timer_id: TimerId::new("t"),
                    run_id: RunId("run_1".to_string()),
                    worker_id: "worker-1".to_string(),
                    fencing_token: 1,
                    attempt,
                    lease_deadline: now().plus(30).unwrap(),
                },
            ),
            command_entry(
                3,
                RaftCommand::FailRun {
                    run_id: RunId("run_1".to_string()),
                    worker_id: "worker-1".to_string(),
                    fencing_token: 1,
                    error: "boom".to_string(),
                    failed_at: now(),
                },
            ),
        ]);
        let app = store.app_state();
        assert_eq!(app.timers.get("t").unwrap().state, state);
        assert_eq!(app.active_runs.len(), 0);
        assert_eq!(app.pending.len(), 0);
        assert_eq!(app.history.last().unwrap().error.as_deref(), Some("boom"));
    }
}

#[test]
fn heartbeats_are_noted() {
    let mut store = store();
    store.apply(&vec![
        command_entry(
            1,
            RaftCommand::RegisterWorker {
                worker_id: "w".to_string(),
                tasks: vec![],
                lease_until: now(),
            },
        ),
        command_entry(
            2,
            RaftCommand::HeartbeatWorker {
                worker_id: "w".to_string(),
                lease_until: now().plus(9).unwrap(),
            },
        ),
        command_entry(
            3,
            RaftCommand::HeartbeatWorker {
                worker_id: "unknown".to_string(),
                lease_until: now(),
            },
        ),
    ]);
    let app = store.app_state();
    let names: Vec<&str> = app.history.iter().map(|e| e.kind.name()).collect();
    assert_eq!(names, vec!["WORKER_REGISTERED", "WORKER_HEARTBEAT"]);
}
