//! Snapshots of the state of an engine, and how the state is loaded from a snapshot and
//! the logs beside it.

use vstd::prelude::*;

use crate::error::{KronError, KronErrorView};
use crate::event::{LogEntry, LogEntryView};
use crate::paths::join_path;
use crate::state::{EngineState, LastRunInfo, LastRunView, StateView, RetryTimes};
use crate::strmap::{Duplicate, Recast, StrMap};
use crate::text::{concat, concat3, concat4, decimal_of};
use crate::timer::{RunId, TimerSpec, TimerState};
use crate::timestamp::{TimeView, Timestamp};

verus! {

/// The version of the snapshots that are written and read.
pub const SNAPSHOT_VERSION: u8 = 1;

/// The version of the storage that snapshots belong to.
pub const STORAGE_FORMAT_VERSION: u8 = 1;

/// The version of the engine that is noted in snapshots.
pub const ENGINE_VERSION: &'static str = "0.1.0";

/// The outcome of the latest run of a timer, as a snapshot holds it.
#[derive(Debug)]
pub struct LastRunInfoSnapshot {
    pub run_id: RunId,
    pub finished_at: Timestamp,
    pub duration_ms: Option<u64>,
    pub status: String,
}

impl View for LastRunInfoSnapshot {
    type V = LastRunView;

    open spec fn view(&self) -> LastRunView {
        LastRunView {
            run_id: self.run_id@,
            finished_at: self.finished_at@,
            duration_ms: self.duration_ms,
            status: self.status@,
        }
    }
}

impl Recast<LastRunInfoSnapshot> for LastRunInfo {
    fn recast(&self) -> (r: LastRunInfoSnapshot) {
        LastRunInfoSnapshot {
            run_id: self.run_id.clone(),
            finished_at: self.finished_at,
            duration_ms: self.duration_ms,
            status: self.status.clone(),
        }
    }
}

impl Recast<LastRunInfo> for LastRunInfoSnapshot {
    fn recast(&self) -> (r: LastRunInfo) {
        LastRunInfo {
            run_id: self.run_id.clone(),
            finished_at: self.finished_at,
            duration_ms: self.duration_ms,
            status: self.status.clone(),
        }
    }
}

/// A run that waits to be tried again, as a snapshot holds it.
#[derive(Debug)]
pub struct PendingRetrySnapshot {
    pub run_id: RunId,
    pub next_retry_at: Timestamp,
    pub attempt: u32,
}

impl View for PendingRetrySnapshot {
    type V = (Seq<char>, TimeView, u32);

    open spec fn view(&self) -> (Seq<char>, TimeView, u32) {
        (self.run_id@, self.next_retry_at@, self.attempt)
    }
}

impl Recast<PendingRetrySnapshot> for (RunId, Timestamp, u32) {
    fn recast(&self) -> (r: PendingRetrySnapshot) {
        PendingRetrySnapshot { run_id: self.0.clone(), next_retry_at: self.1, attempt: self.2 }
    }
}

impl Recast<(RunId, Timestamp, u32)> for PendingRetrySnapshot {
    fn recast(&self) -> (r: (RunId, Timestamp, u32)) {
        (self.run_id.clone(), self.next_retry_at, self.attempt)
    }
}

/// The state of an engine as it is kept on disk.
pub struct Snapshot {
    pub v: u8,
    pub format_version: u8,
    pub engine_version: String,
    pub created_at: Timestamp,
    /// How much of the log the snapshot covers, in bytes.
    pub last_aof_offset: u64,
    pub specs: StrMap<TimerSpec>,
    pub states: StrMap<TimerState>,
    pub last_runs: StrMap<LastRunInfoSnapshot>,
    pub next_runs: StrMap<Timestamp>,
    pub retries_7d: StrMap<u32>,
    pub retry_times: StrMap<RetryTimes>,
    pub pending_retries: StrMap<PendingRetrySnapshot>,
}

/// A [`Snapshot`] as a mathematical value. The functions that a state knows are no part
/// of a snapshot: its state has none.
#[verifier::ext_equal]
pub struct SnapshotView {
    pub v: u8,
    pub format_version: u8,
    pub engine_version: Seq<char>,
    pub created_at: TimeView,
    pub last_aof_offset: u64,
    pub state: StateView,
}

impl View for Snapshot {
    type V = SnapshotView;

    open spec fn view(&self) -> SnapshotView {
        SnapshotView {
            v: self.v,
            format_version: self.format_version,
            engine_version: self.engine_version@,
            created_at: self.created_at@,
            last_aof_offset: self.last_aof_offset,
            state: StateView {
                specs: self.specs@,
                states: self.states@,
                fn_names: Map::empty(),
                last_runs: self.last_runs@,
                next_runs: self.next_runs@,
                retries_7d: self.retries_7d@,
                retry_times: self.retry_times@,
                pending_retries: self.pending_retries@,
            },
        }
    }
}

impl StateView {
    /// What a snapshot keeps of a state: all but the registered functions.
    pub open spec fn persisted(self) -> StateView {
        StateView { fn_names: Map::empty(), ..self }
    }

    /// The snapshot of a state that covers the log up to an offset.
    pub open spec fn snapshot(self, offset: u64, created_at: TimeView) -> SnapshotView {
        SnapshotView {
            v: SNAPSHOT_VERSION,
            format_version: STORAGE_FORMAT_VERSION,
            engine_version: ENGINE_VERSION@,
            created_at,
            last_aof_offset: offset,
            state: self.persisted(),
        }
    }
}

impl SnapshotView {
    /// The state of a snapshot, if its versions are the ones that are read.
    pub open spec fn restored(self) -> Result<StateView, KronErrorView> {
        if self.v != SNAPSHOT_VERSION {
            Err(
                KronErrorView::InvalidSnapshot(
                    "unsupported snapshot version "@ + crate::text::decimal(self.v as nat),
                ),
            )
        } else if self.format_version != STORAGE_FORMAT_VERSION {
            Err(
                KronErrorView::InvalidSnapshot(
                    "unsupported storage format version "@ + crate::text::decimal(
                        self.format_version as nat,
                    ),
                ),
            )
        } else {
            Ok(self.state)
        }
    }
}

/// The view of a state or of the error in its place.
pub open spec fn state_view(r: Result<EngineState, KronError>) -> Result<StateView, KronErrorView> {
    match r {
        Ok(state) => Ok(state@),
        Err(error) => Err(error@),
    }
}

impl Snapshot {
    /// The snapshot of a state that covers the log up to an offset, made at the given
    /// time.
    pub fn from_state_at(state: &EngineState, last_aof_offset: u64, created_at: Timestamp) -> (r:
        Self)
        ensures
            r@ == state@.snapshot(last_aof_offset, created_at@),
    {
        Snapshot {
            v: SNAPSHOT_VERSION,
            format_version: STORAGE_FORMAT_VERSION,
            engine_version: ENGINE_VERSION.to_string(),
            created_at,
            last_aof_offset,
            specs: state.specs.duplicate(),
            states: state.states.duplicate(),
            last_runs: state.last_runs.recast(),
            next_runs: state.next_runs.duplicate(),
            retries_7d: state.retries_7d.duplicate(),
            retry_times: state.retry_times.duplicate(),
            pending_retries: state.pending_retries.recast(),
        }
    }

    /// The snapshot of a state that covers the log up to an offset.
    pub fn from_state(state: &EngineState, last_aof_offset: u64) -> (r: Self)
        ensures
            r@ == state@.snapshot(last_aof_offset, r@.created_at),
    {
        Snapshot::from_state_at(state, last_aof_offset, crate::timestamp::utc_now())
    }

    /// The state of the snapshot.
    pub fn into_state(self) -> (r: Result<EngineState, KronError>)
        ensures
            state_view(r) == self@.restored(),
    {
        if self.v != SNAPSHOT_VERSION {
            return Err(
                KronError::InvalidSnapshot(
                    concat("unsupported snapshot version ", &decimal_of(self.v as u64)),
                ),
            );
        }
        if self.format_version != STORAGE_FORMAT_VERSION {
            return Err(
                KronError::InvalidSnapshot(
                    concat(
                        "unsupported storage format version ",
                        &decimal_of(self.format_version as u64),
                    ),
                ),
            );
        }
        let last_runs = self.last_runs.recast();
        let pending_retries = self.pending_retries.recast();
        Ok(
            EngineState {
                specs: self.specs,
                states: self.states,
                fn_names: StrMap::new(),
                last_runs,
                next_runs: self.next_runs,
                retries_7d: self.retries_7d,
                retry_times: self.retry_times,
                pending_retries,
            },
        )
    }
}

/// A snapshot that was made of a state gives the state back, but for the functions that
/// were registered.
pub proof fn snapshot_round_trip(state: StateView, offset: u64, created_at: TimeView)
    ensures
        state.snapshot(offset, created_at).restored() == Ok::<_, KronErrorView>(state.persisted()),
{
}

/// The file of the snapshot.
pub fn snapshot_path(data_dir: &str) -> (r: String)
    ensures
        r@ == crate::paths::joined(data_dir@, "kron.snapshot"@),
{
    join_path(data_dir, "kron.snapshot")
}

/// The file of the log.
pub fn aof_path(data_dir: &str) -> (r: String)
    ensures
        r@ == crate::paths::joined(data_dir@, "kron.aof"@),
{
    join_path(data_dir, "kron.aof")
}

/// The file of the log that the latest compaction has put aside.
pub fn old_aof_path(data_dir: &str) -> (r: String)
    ensures
        r@ == crate::paths::joined(data_dir@, "kron.aof.old"@),
{
    join_path(data_dir, "kron.aof.old")
}

/// Which entries have to be replayed on top of a snapshot.
#[derive(Debug, Clone, Copy, PartialEq, Eq, Structural)]
pub enum LoadPlan {
    /// The log from the offset on.
    Tail { offset: u64 },
    /// The log that was put aside, from the offset on, and then the whole log.
    OldTailThenWhole { offset: u64 },
}

/// Which entries have to be replayed on top of a snapshot that covers the log up to an
/// offset. A log that is shorter than that was begun anew by a compaction that did not
/// come to its end, so the log that was put aside is needed as well.
pub open spec fn load_plan(
    offset: u64,
    aof_len: u64,
    old_exists: bool,
    data_dir: Seq<char>,
) -> Result<LoadPlan, KronErrorView> {
    if offset <= aof_len {
        Ok(LoadPlan::Tail { offset })
    } else if old_exists {
        Ok(LoadPlan::OldTailThenWhole { offset })
    } else {
        Err(
            KronErrorView::InvalidSnapshot(
                "snapshot points to AOF offset "@ + crate::text::decimal(offset as nat) + ", but "@
                    + crate::paths::joined(data_dir, "kron.aof"@) + " is shorter and "@
                    + crate::paths::joined(data_dir, "kron.aof.old"@) + " is missing"@,
            ),
        )
    }
}

/// Which entries have to be replayed on top of a snapshot.
pub fn plan_load(offset: u64, aof_len: u64, old_exists: bool, data_dir: &str) -> (r: Result<
    LoadPlan,
    KronError,
>)
    ensures
        match r {
            Ok(plan) => load_plan(offset, aof_len, old_exists, data_dir@) == Ok::<
                _,
                KronErrorView,
            >(plan),
            Err(error) => load_plan(offset, aof_len, old_exists, data_dir@) == Err::<LoadPlan, _>(
                error@,
            ),
        },
{
    if offset <= aof_len {
        return Ok(LoadPlan::Tail { offset });
    }
    if old_exists {
        return Ok(LoadPlan::OldTailThenWhole { offset });
    }
    let head = concat3("snapshot points to AOF offset ", &decimal_of(offset), ", but ");
    let middle = concat3(&head, &aof_path(data_dir), " is shorter and ");
    let message = concat3(&middle, &old_aof_path(data_dir), " is missing");
    Err(KronError::InvalidSnapshot(message))
}

/// The state that a snapshot, if there is one, and the entries on top of it make up.
pub open spec fn loaded(snapshot: Option<SnapshotView>, entries: Seq<LogEntryView>) -> Result<
    StateView,
    KronErrorView,
> {
    match snapshot {
        None => Ok(StateView::empty().replay(entries)),
        Some(s) => match s.restored() {
            Ok(state) => Ok(state.replay(entries)),
            Err(error) => Err(error),
        },
    }
}

/// Whether every retry of the entries can be counted on top of the snapshot.
pub open spec fn can_load(snapshot: Option<SnapshotView>, entries: Seq<LogEntryView>) -> bool {
    match snapshot {
        None => StateView::empty().can_replay(entries),
        Some(s) => s.restored() is Ok ==> s.state.can_replay(entries),
    }
}

/// The view of an optional snapshot.
pub open spec fn snapshot_view(snapshot: Option<Snapshot>) -> Option<SnapshotView> {
    match snapshot {
        Some(s) => Some(s@),
        None => None,
    }
}

/// The state that a snapshot, if there is one, and the entries on top of it make up.
pub fn load_state(snapshot: Option<Snapshot>, entries: &Vec<LogEntry>) -> (r: Result<
    EngineState,
    KronError,
>)
    requires
        can_load(snapshot_view(snapshot), entries.deep_view()),
    ensures
        state_view(r) == loaded(snapshot_view(snapshot), entries.deep_view()),
{
    let mut state = match snapshot {
        None => EngineState::new(),
        Some(s) => match s.into_state() {
            Ok(state) => state,
            Err(error) => {
                return Err(error);
            },
        },
    };
    state.replay(entries);
    Ok(state)
}

/// A snapshot of what the first part of a log made of the empty state, with the second
/// part on top, gives what the whole log gives.
pub proof fn snapshot_and_tail_equal_the_log(
    first: Seq<LogEntryView>,
    second: Seq<LogEntryView>,
    offset: u64,
    created_at: TimeView,
)
    ensures
        loaded(Some(StateView::empty().replay(first).snapshot(offset, created_at)), second)
            == loaded(None, first + second),
{
    crate::state::replay_in_parts(StateView::empty(), first, second);
    replay_registers_nothing(first);
    let state = StateView::empty().replay(first);
    assert(state.persisted() =~= state);
}

proof fn replay_registers_nothing(log: Seq<LogEntryView>)
    ensures
        StateView::empty().replay(log).fn_names == Map::<Seq<char>, Seq<char>>::empty(),
    decreases log.len(),
{
    if log.len() > 0 {
        replay_registers_nothing(log.drop_last());
    }
}

/// One step of a compaction.
#[derive(Debug, Clone, Copy, PartialEq, Eq, Structural)]
pub enum CompactStep {
    /// Replace the snapshot by one of the current state that covers the log up to the
    /// offset.
    WriteSnapshot { offset: u64 },
    /// Remove the log that an earlier compaction has put aside.
    RemoveOld,
    /// Put the log aside.
    PutAside,
    /// Begin an empty log.
    BeginLog,
}

/// The steps of a compaction of a log of the given length, if there is one. After every
/// step the files that are there make up the state.
pub open spec fn compaction(aof_len: Option<u64>) -> Seq<CompactStep> {
    match aof_len {
        Some(len) => seq![
            CompactStep::WriteSnapshot { offset: len },
            CompactStep::RemoveOld,
            CompactStep::PutAside,
            CompactStep::BeginLog,
            CompactStep::WriteSnapshot { offset: 0 },
        ],
        None => seq![
            CompactStep::WriteSnapshot { offset: 0 },
            CompactStep::BeginLog,
            CompactStep::WriteSnapshot { offset: 0 },
        ],
    }
}

/// The steps of a compaction of a log of the given length, if there is one.
pub fn compact(aof_len: Option<u64>) -> (r: Vec<CompactStep>)
    ensures
        r@ == compaction(aof_len),
{
    let mut steps: Vec<CompactStep> = Vec::new();
    match aof_len {
        Some(len) => {
            steps.push(CompactStep::WriteSnapshot { offset: len });
            steps.push(CompactStep::RemoveOld);
            steps.push(CompactStep::PutAside);
        },
        None => {
            steps.push(CompactStep::WriteSnapshot { offset: 0 });
        },
    }
    steps.push(CompactStep::BeginLog);
    steps.push(CompactStep::WriteSnapshot { offset: 0 });
    assert(steps@ =~= compaction(aof_len));
    steps
}

/// What is done to compact a log that no engine is writing: the state that the data
/// directory holds, and the steps with it.
pub fn compact_read_only(
    snapshot: Option<Snapshot>,
    entries: &Vec<LogEntry>,
    aof_len: Option<u64>,
) -> (r: Result<(EngineState, Vec<CompactStep>), KronError>)
    requires
        can_load(snapshot_view(snapshot), entries.deep_view()),
    ensures
        match r {
            Ok((state, steps)) => loaded(snapshot_view(snapshot), entries.deep_view()) == Ok::<
                _,
                KronErrorView,
            >(state@) && steps@ == compaction(aof_len),
            Err(error) => loaded(snapshot_view(snapshot), entries.deep_view()) == Err::<
                StateView,
                _,
            >(error@),
        },
{
    match load_state(snapshot, entries) {
        Ok(state) => Ok((state, compact(aof_len))),
        Err(error) => Err(error),
    }
}

/// The error of a snapshot that cannot be decoded.
pub fn unreadable_snapshot(data_dir: &str, reason: &str) -> (r: KronError)
    ensures
        r@ == KronErrorView::InvalidSnapshot(
            "cannot read "@ + crate::paths::joined(data_dir@, "kron.snapshot"@) + ": "@ + reason@,
        ),
{
    KronError::InvalidSnapshot(
        concat4("cannot read ", &snapshot_path(data_dir), ": ", reason),
    )
}

/// A line of a log: its entry and its length in bytes.
pub struct Line {
    pub entry: LogEntryView,
    pub bytes: nat,
}

/// The length of a log in bytes.
pub open spec fn log_len(lines: Seq<Line>) -> nat
    decreases lines.len(),
{
    if lines.len() == 0 {
        0
    } else {
        lines[0].bytes + log_len(lines.skip(1))
    }
}

/// The entries of the lines of a log from an offset on, which is the start of a line.
pub open spec fn log_tail(lines: Seq<Line>, offset: nat) -> Seq<LogEntryView>
    decreases lines.len(),
{
    if offset == 0 || lines.len() == 0 {
        Seq::new(lines.len(), |i: int| lines[i].entry)
    } else {
        log_tail(lines.skip(1), (offset - lines[0].bytes) as nat)
    }
}

/// The files of a data directory.
pub struct DiskView {
    pub data_dir: Seq<char>,
    pub snapshot: Option<SnapshotView>,
    pub aof: Option<Seq<Line>>,
    pub old: Option<Seq<Line>>,
}

/// The lines of a log; one that is missing is begun when it is opened.
pub open spec fn lines_of(file: Option<Seq<Line>>) -> Seq<Line> {
    match file {
        Some(lines) => lines,
        None => Seq::empty(),
    }
}

impl DiskView {
    /// The files after a step of a compaction.
    pub open spec fn step(self, step: CompactStep, state: StateView, now: TimeView) -> DiskView {
        match step {
            CompactStep::WriteSnapshot { offset } => DiskView {
                snapshot: Some(state.snapshot(offset, now)),
                ..self
            },
            CompactStep::RemoveOld => DiskView { old: None, ..self },
            CompactStep::PutAside => DiskView { old: self.aof, aof: None, ..self },
            CompactStep::BeginLog => DiskView { aof: Some(Seq::empty()), ..self },
        }
    }

    /// The files after the first steps of a compaction.
    pub open spec fn steps(
        self,
        steps: Seq<CompactStep>,
        state: StateView,
        now: TimeView,
    ) -> DiskView
        decreases steps.len(),
    {
        if steps.len() == 0 {
            self
        } else {
            self.steps(steps.drop_last(), state, now).step(steps.last(), state, now)
        }
    }

    /// The state that is loaded from the files.
    pub open spec fn recovered(self) -> Result<StateView, KronErrorView> {
        let aof = lines_of(self.aof);
        match self.snapshot {
            None => loaded(None, log_tail(aof, 0)),
            Some(s) => match load_plan(
                s.last_aof_offset,
                log_len(aof) as u64,
                self.old is Some,
                self.data_dir,
            ) {
                Ok(LoadPlan::Tail { offset }) => loaded(
                    self.snapshot,
                    log_tail(aof, offset as nat),
                ),
                Ok(LoadPlan::OldTailThenWhole { offset }) => loaded(
                    self.snapshot,
                    log_tail(self.old->0, offset as nat) + log_tail(aof, 0),
                ),
                Err(error) => Err(error),
            },
        }
    }
}

proof fn nothing_beyond_the_end(lines: Seq<Line>)
    requires
        forall|i: int| 0 <= i < lines.len() ==> (#[trigger] lines[i]).bytes > 0,
    ensures
        log_tail(lines, log_len(lines)) == Seq::<LogEntryView>::empty(),
    decreases lines.len(),
{
    if lines.len() > 0 {
        let rest = lines.skip(1);
        assert forall|i: int| 0 <= i < rest.len() implies (#[trigger] rest[i]).bytes > 0 by {
            assert(rest[i] == lines[i + 1]);
        }
        nothing_beyond_the_end(rest);
        assert(lines[0].bytes > 0);
    }
}

/// A compaction can be interrupted before its first step or after any of them. Before the
/// first the files load to what they loaded to; from the first on, to the state that the
/// compaction was given.
pub proof fn compaction_survives_interruption(
    disk: DiskView,
    state: StateView,
    now: TimeView,
    len: Option<u64>,
    done: int,
)
    requires
        len is Some <==> disk.aof is Some,
        len is Some ==> log_len(disk.aof->0) == len->0,
        forall|i: int|
            0 <= i < lines_of(disk.aof).len() ==> (#[trigger] lines_of(disk.aof)[i]).bytes > 0,
        0 <= done <= compaction(len).len(),
    ensures
        disk.steps(compaction(len).take(done), state, now).recovered() == if done == 0 {
            disk.recovered()
        } else {
            Ok::<_, KronErrorView>(state.persisted())
        },
        done == 0 ==> disk.steps(compaction(len).take(done), state, now) == disk,
{
    let all = compaction(len);
    let lines = lines_of(disk.aof);
    nothing_beyond_the_end(lines);
    let none = Seq::<LogEntryView>::empty();
    assert(log_tail(Seq::<Line>::empty(), 0) =~= none);
    assert(none + none =~= none);
    assert(all.take(0) =~= Seq::<CompactStep>::empty());
    assert(all.take(1).drop_last() =~= all.take(0));
    assert(all.take(2).drop_last() =~= all.take(1));
    assert(all.take(3).drop_last() =~= all.take(2));
    let d1 = disk.steps(all.take(1), state, now);
    assert(d1 == disk.steps(all.take(0), state, now).step(all[0], state, now));
    let d2 = disk.steps(all.take(2), state, now);
    assert(d2 == d1.step(all[1], state, now));
    let d3 = disk.steps(all.take(3), state, now);
    assert(d3 == d2.step(all[2], state, now));
    if len is Some {
        assert(all.take(4).drop_last() =~= all.take(3));
        assert(all.take(5).drop_last() =~= all.take(4));
        let d4 = disk.steps(all.take(4), state, now);
        assert(d4 == d3.step(all[3], state, now));
        let d5 = disk.steps(all.take(5), state, now);
        assert(d5 == d4.step(all[4], state, now));
        if len->0 == 0 {
            if lines.len() > 0 {
                assert(lines[0].bytes > 0);
            }
            assert(lines =~= Seq::empty());
        }
    }
}

/// What is written after a compaction is replayed on top of its snapshot.
pub proof fn events_after_a_compaction_are_replayed(
    disk: DiskView,
    state: StateView,
    now: TimeView,
    lines: Seq<Line>,
)
    requires
        disk.snapshot == Some(state.snapshot(0, now)),
        disk.aof == Some(lines),
    ensures
        disk.recovered() == Ok::<_, KronErrorView>(
            state.persisted().replay(Seq::new(lines.len(), |i: int| lines[i].entry)),
        ),
{
}

} // verus!
