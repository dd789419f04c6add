//! The state machine of the server, and the store of the log that drives it.

use vstd::prelude::*;

use crate::cluster::{
    copy_texts,
    last_status,
    ActiveRunView,
    CommandView,
    DistributedSpecView,
    DistributedSummary,
    DistributedSummaryView,
    DistributedTimerSpec,
    HistoryEntry,
    HistoryKind,
    HistoryView,
    NodeInfo,
    NodeView,
    PersistedActiveRun,
    RaftCommand,
    TargetView,
    TimerTarget,
    WorkerRun,
    WorkerRunView,
};
use crate::openraft_adapter::entry_log::{
    EntryLog,
    EntryPayload,
    EntryView,
    IndexBound,
    LogId,
    PayloadView,
    StoredEntry,
};
use crate::openraft_adapter::segment::STORE_FORMAT_VERSION;
use crate::schedule::Schedule;
use crate::strmap::{Duplicate, StrMap};
use crate::text::{concat3, copy_option, same};
use crate::timer::{RunId, TimerId, TimerState};
use crate::timestamp::{TimeView, Timestamp};

verus! {

/// The latest membership that was applied: the text of its JSON value, and where it stood
/// in the log.
#[derive(Debug, PartialEq, Eq)]
pub struct StoredMembership {
    pub log_id: Option<LogId>,
    pub membership: String,
}

/// A [`StoredMembership`] as a mathematical value.
pub struct MembershipView {
    pub log_id: Option<LogId>,
    pub membership: Seq<char>,
}

impl View for StoredMembership {
    type V = MembershipView;

    open spec fn view(&self) -> MembershipView {
        MembershipView { log_id: self.log_id, membership: self.membership@ }
    }
}

impl Clone for StoredMembership {
    fn clone(&self) -> (r: Self)
        ensures
            r@ == self@,
    {
        StoredMembership { log_id: self.log_id, membership: self.membership.clone() }
    }
}

/// A timer of the server.
#[derive(Debug, PartialEq, Eq)]
pub struct PersistedTimer {
    pub spec: DistributedTimerSpec,
    pub state: TimerState,
    pub fencing_token: u64,
}

/// A [`PersistedTimer`] as a mathematical value.
pub struct TimerView {
    pub spec: DistributedSpecView,
    pub state: TimerState,
    pub fencing_token: u64,
}

impl View for PersistedTimer {
    type V = TimerView;

    open spec fn view(&self) -> TimerView {
        TimerView { spec: self.spec@, state: self.state, fencing_token: self.fencing_token }
    }
}

impl Duplicate for PersistedTimer {
    fn duplicate(&self) -> (r: Self) {
        PersistedTimer {
            spec: self.spec.clone(),
            state: self.state,
            fencing_token: self.fencing_token,
        }
    }
}

/// A worker of the server.
#[derive(Debug, PartialEq, Eq)]
pub struct PersistedWorker {
    pub tasks: Vec<String>,
    pub lease_until: Timestamp,
}

/// A [`PersistedWorker`] as a mathematical value.
pub struct WorkerView {
    pub tasks: Seq<Seq<char>>,
    pub lease_until: TimeView,
}

impl View for PersistedWorker {
    type V = WorkerView;

    open spec fn view(&self) -> WorkerView {
        WorkerView { tasks: self.tasks.deep_view(), lease_until: self.lease_until@ }
    }
}

impl Duplicate for PersistedWorker {
    fn duplicate(&self) -> (r: Self) {
        PersistedWorker { tasks: copy_texts(&self.tasks), lease_until: self.lease_until }
    }
}

/// What the commands of the replicated log have made of the server.
pub struct PersistedStateMachine {
    pub last_applied_log_id: Option<LogId>,
    pub last_membership: StoredMembership,
    pub timers: StrMap<PersistedTimer>,
    pub next_runs: StrMap<Timestamp>,
    /// The runs that wait for a worker, oldest first.
    pub pending: Vec<WorkerRun>,
    /// The runs that a worker has claimed, by their names.
    pub active_runs: StrMap<PersistedActiveRun>,
    pub workers: StrMap<PersistedWorker>,
    pub nodes: StrMap<NodeInfo>,
    pub history: Vec<HistoryEntry>,
}

/// A [`PersistedStateMachine`] as a mathematical value.
#[verifier::ext_equal]
pub struct MachineView {
    pub last_applied_log_id: Option<LogId>,
    pub last_membership: MembershipView,
    pub timers: Map<Seq<char>, TimerView>,
    pub next_runs: Map<Seq<char>, TimeView>,
    pub pending: Seq<WorkerRunView>,
    pub active_runs: Map<Seq<char>, ActiveRunView>,
    pub workers: Map<Seq<char>, WorkerView>,
    pub nodes: Map<Seq<char>, NodeView>,
    pub history: Seq<HistoryView>,
}

impl View for PersistedStateMachine {
    type V = MachineView;

    open spec fn view(&self) -> MachineView {
        MachineView {
            last_applied_log_id: self.last_applied_log_id,
            last_membership: self.last_membership@,
            timers: self.timers@,
            next_runs: self.next_runs@,
            pending: self.pending.deep_view(),
            active_runs: self.active_runs@,
            workers: self.workers@,
            nodes: self.nodes@,
            history: self.history.deep_view(),
        }
    }
}

/// Whether the run at the position is the first of the name.
pub open spec fn first_of_name(runs: Seq<WorkerRunView>, run_id: Seq<char>, at: int) -> bool {
    &&& 0 <= at < runs.len()
    &&& runs[at].run_id == run_id
    &&& forall|i: int| 0 <= i < at ==> (#[trigger] runs[i]).run_id != run_id
}

/// The runs without the first of the name.
pub open spec fn without_run(runs: Seq<WorkerRunView>, run_id: Seq<char>) -> Seq<WorkerRunView> {
    if exists|at: int| first_of_name(runs, run_id, at) {
        runs.remove(choose|at: int| first_of_name(runs, run_id, at))
    } else {
        runs
    }
}

impl MachineView {
    /// The state machine before any command.
    pub open spec fn initial(membership: Seq<char>) -> MachineView {
        MachineView {
            last_applied_log_id: None,
            last_membership: MembershipView { log_id: None, membership },
            timers: Map::empty(),
            next_runs: Map::empty(),
            pending: Seq::empty(),
            active_runs: Map::empty(),
            workers: Map::empty(),
            nodes: Map::empty(),
            history: Seq::empty(),
        }
    }

    /// The tenant of a timer.
    pub open spec fn tenant_of(self, timer: Seq<char>) -> Option<Seq<char>> {
        if self.timers.dom().contains(timer) {
            self.timers[timer].spec.tenant_id
        } else {
            None
        }
    }

    /// The state machine with a known timer in the given state.
    pub open spec fn with_state(self, timer: Seq<char>, state: TimerState) -> MachineView {
        if self.timers.dom().contains(timer) {
            MachineView {
                timers: self.timers.insert(timer, TimerView { state, ..self.timers[timer] }),
                ..self
            }
        } else {
            self
        }
    }

    /// The state machine with a known timer in the given state and with the given token.
    pub open spec fn with_token(
        self,
        timer: Seq<char>,
        state: TimerState,
        fencing_token: u64,
    ) -> MachineView {
        if self.timers.dom().contains(timer) {
            MachineView {
                timers: self.timers.insert(
                    timer,
                    TimerView { state, fencing_token, ..self.timers[timer] },
                ),
                ..self
            }
        } else {
            self
        }
    }

    /// The state machine with the given next run of a timer.
    pub open spec fn with_next(self, timer: Seq<char>, next: Option<TimeView>) -> MachineView {
        MachineView {
            next_runs: match next {
                Some(at) => self.next_runs.insert(timer, at),
                None => self.next_runs.remove(timer),
            },
            ..self
        }
    }

    /// The state machine with another entry in its history.
    pub open spec fn noted(self, entry: HistoryView) -> MachineView {
        MachineView { history: self.history.push(entry), ..self }
    }

    /// Whether a run of the timer is active.
    pub open spec fn is_active(self, timer: Seq<char>) -> bool {
        exists|run: Seq<char>| #[trigger]
            self.active_runs.dom().contains(run) && self.active_runs[run].timer_id == timer
    }

    /// Whether the worker holds the run under the token.
    pub open spec fn holds(self, run_id: Seq<char>, worker_id: Seq<char>, token: u64) -> bool {
        &&& self.active_runs.dom().contains(run_id)
        &&& self.active_runs[run_id].worker_id == worker_id
        &&& self.active_runs[run_id].fencing_token == token
    }

    /// The state machine without the active run.
    pub open spec fn released(self, run_id: Seq<char>) -> MachineView {
        MachineView { active_runs: self.active_runs.remove(run_id), ..self }
    }

    /// The state machine once the next run of a timer is computed from an instant on. A
    /// timer that fires once has no next run.
    pub open spec fn rescheduled(self, timer: Seq<char>, after: TimeView) -> MachineView {
        if self.timers.dom().contains(timer) {
            let spec = self.timers[timer].spec;
            if spec.schedule.one_shot() {
                self.with_next(timer, None)
            } else {
                self.with_next(
                    timer,
                    match spec.schedule.next(after, spec.timezone) {
                        Ok(next) => next,
                        Err(_) => None,
                    },
                )
            }
        } else {
            self
        }
    }

    /// The entry that tells of a run.
    pub open spec fn run_entry(
        self,
        kind: HistoryKind,
        timer: Seq<char>,
        run_id: Seq<char>,
        worker_id: Seq<char>,
        fencing_token: u64,
    ) -> HistoryView {
        HistoryView {
            timer: Some(timer),
            tenant_id: self.tenant_of(timer),
            run_id: Some(run_id),
            worker_id: Some(worker_id),
            fencing_token: Some(fencing_token),
            ..HistoryView::bare(kind)
        }
    }

    /// Whether a run has attempts left: its timer is known and allows more of them.
    pub open spec fn attempts_left(self, active: ActiveRunView) -> bool {
        self.timers.dom().contains(active.timer_id) && active.attempt
            < self.timers[active.timer_id].spec.retry.max_attempts
    }

    /// The next attempt of a run that has failed, under a new token; nothing when its
    /// attempts are used up or its timer is not one for workers.
    pub open spec fn retry_of(self, active: ActiveRunView) -> Option<WorkerRunView> {
        let timer = active.timer_id;
        if !self.attempts_left(active) {
            None
        } else {
            match self.timers[timer].spec.target {
                TargetView::WorkerTask { task, payload } => Some(
                    WorkerRunView {
                        timer,
                        tenant_id: self.timers[timer].spec.tenant_id,
                        run_id: active.run_id,
                        task,
                        payload,
                        attempt: (active.attempt + 1) as u32,
                        fencing_token: (self.timers[timer].fencing_token + 1) as u64,
                        idempotency_key: timer + ":failed:"@ + active.run_id,
                    },
                ),
                _ => None,
            }
        }
    }

    /// The state machine once another attempt of a run waits for a worker.
    pub open spec fn retried(self, run: WorkerRunView) -> MachineView {
        MachineView {
            pending: self.pending.push(run),
            ..self.with_token(run.timer, TimerState::Retrying, run.fencing_token)
        }
    }

    /// Whether the command can be applied: where it completes a run, the next run of its
    /// timer can be computed; where a run that it fails is tried again, the token of its
    /// timer can be raised.
    pub open spec fn can_apply(self, command: CommandView) -> bool {
        match command {
            CommandView::FailRun { run_id, worker_id, fencing_token, .. } => {
                let active = self.active_runs[run_id];
                self.holds(run_id, worker_id, fencing_token) && self.retry_of(active) is Some
                    ==> self.timers[active.timer_id].fencing_token < u64::MAX
            },
            CommandView::CompleteRun { run_id, worker_id, fencing_token, completed_at } => {
                let timer = self.active_runs[run_id].timer_id;
                self.holds(run_id, worker_id, fencing_token) && self.timers.dom().contains(timer)
                    && !self.timers[timer].spec.schedule.one_shot()
                    ==> self.timers[timer].spec.schedule.can_run_after(
                    completed_at,
                    self.timers[timer].spec.timezone,
                )
            },
            _ => true,
        }
    }

    /// What a command makes of the state machine.
    pub open spec fn apply(self, command: CommandView) -> MachineView {
        match command {
            CommandView::CreateTimer { spec, next_run_at } => self.created(spec, next_run_at),
            CommandView::UpdateTimer { spec, next_run_at } => self.created(spec, next_run_at),
            CommandView::CancelTimer { timer_id } => self.with_state(
                timer_id,
                TimerState::Cancelled,
            ).with_next(timer_id, None),
            CommandView::PauseTimer { timer_id } => self.with_state(
                timer_id,
                TimerState::Paused,
            ).with_next(timer_id, None),
            CommandView::ResumeTimer { timer_id, next_run_at } => self.with_state(
                timer_id,
                TimerState::Scheduled,
            ).with_next(timer_id, next_run_at),
            CommandView::ClaimRun {
                timer_id,
                run_id,
                worker_id,
                fencing_token,
                attempt,
                lease_deadline,
            } => if self.is_active(timer_id) {
                self
            } else {
                let claimed = MachineView {
                    pending: without_run(self.pending, run_id),
                    active_runs: self.active_runs.insert(
                        run_id,
                        ActiveRunView {
                            timer_id,
                            run_id,
                            worker_id,
                            fencing_token,
                            attempt,
                            lease_deadline,
                        },
                    ),
                    ..self.with_token(timer_id, TimerState::Running, fencing_token)
                };
                claimed.noted(
                    claimed.run_entry(
                        HistoryKind::RunClaimed,
                        timer_id,
                        run_id,
                        worker_id,
                        fencing_token,
                    ),
                )
            },
            CommandView::CompleteRun { run_id, worker_id, fencing_token, completed_at } => {
                if self.holds(run_id, worker_id, fencing_token) {
                    let timer = self.active_runs[run_id].timer_id;
                    let done = self.released(run_id).with_state(
                        timer,
                        TimerState::Scheduled,
                    ).rescheduled(timer, completed_at);
                    done.noted(
                        done.run_entry(
                            HistoryKind::RunSucceeded,
                            timer,
                            run_id,
                            worker_id,
                            fencing_token,
                        ),
                    )
                } else {
                    self
                }
            },
            CommandView::FailRun { run_id, worker_id, fencing_token, error, .. } => {
                if self.holds(run_id, worker_id, fencing_token) {
                    let active = self.active_runs[run_id];
                    let released = self.released(run_id);
                    let failed = released.noted(
                        HistoryView {
                            error: Some(error),
                            ..released.run_entry(
                                HistoryKind::RunFailed,
                                active.timer_id,
                                run_id,
                                worker_id,
                                fencing_token,
                            )
                        },
                    );
                    match self.retry_of(active) {
                        Some(run) => failed.retried(run),
                        None => failed.with_state(
                            active.timer_id,
                            if self.attempts_left(active) {
                                TimerState::Scheduled
                            } else {
                                TimerState::Dead
                            },
                        ),
                    }
                } else {
                    self
                }
            },
            CommandView::ExpireRunLease { run_id, replacement, .. } => {
                if self.active_runs.dom().contains(run_id) {
                    let active = self.active_runs[run_id];
                    let released = self.released(run_id);
                    let expired = released.noted(
                        released.run_entry(
                            HistoryKind::RunLeaseExpired,
                            active.timer_id,
                            active.run_id,
                            active.worker_id,
                            active.fencing_token,
                        ),
                    );
                    match replacement {
                        Some(run) => expired.retried(run),
                        None => expired.with_state(active.timer_id, TimerState::Dead),
                    }
                } else {
                    self
                }
            },
            CommandView::HeartbeatWorker { worker_id, lease_until } => {
                if self.workers.dom().contains(worker_id) {
                    (MachineView {
                        workers: self.workers.insert(
                            worker_id,
                            WorkerView { lease_until, ..self.workers[worker_id] },
                        ),
                        ..self
                    }).noted(
                        HistoryView {
                            worker_id: Some(worker_id),
                            ..HistoryView::bare(HistoryKind::WorkerHeartbeat)
                        },
                    )
                } else {
                    self
                }
            },
            CommandView::RegisterWorker { worker_id, tasks, lease_until } => (MachineView {
                workers: self.workers.insert(worker_id, WorkerView { tasks, lease_until }),
                ..self
            }).noted(
                HistoryView {
                    worker_id: Some(worker_id),
                    ..HistoryView::bare(HistoryKind::WorkerRegistered)
                },
            ),
            CommandView::UnregisterWorker { worker_id } => MachineView {
                workers: self.workers.remove(worker_id),
                ..self
            },
            CommandView::AddNode { node } => MachineView {
                nodes: self.nodes.insert(node.node_id, node),
                ..self
            },
            CommandView::RemoveNode { node_id } => MachineView {
                nodes: self.nodes.remove(node_id),
                ..self
            },
        }
    }

    /// The state machine with a new or changed timer.
    pub open spec fn created(
        self,
        spec: DistributedSpecView,
        next_run_at: Option<TimeView>,
    ) -> MachineView {
        (MachineView {
            timers: self.timers.insert(
                spec.id,
                TimerView { spec, state: TimerState::Scheduled, fencing_token: 0 },
            ),
            ..self
        }).with_next(spec.id, next_run_at).noted(
            HistoryView {
                timer: Some(spec.id),
                tenant_id: spec.tenant_id,
                ..HistoryView::bare(HistoryKind::TimerCreated)
            },
        )
    }
}

impl PersistedStateMachine {
    /// The state machine before any command, with the text of the empty membership.
    pub fn new(membership: String) -> (r: Self)
        ensures
            r@ == MachineView::initial(membership@),
    {
        let r = PersistedStateMachine {
            last_applied_log_id: None,
            last_membership: StoredMembership { log_id: None, membership },
            timers: StrMap::new(),
            next_runs: StrMap::new(),
            pending: Vec::new(),
            active_runs: StrMap::new(),
            workers: StrMap::new(),
            nodes: StrMap::new(),
            history: Vec::new(),
        };
        assert(r@ =~= MachineView::initial(membership@));
        r
    }

    /// The tenant of a timer.
    fn timer_tenant(&self, timer: &str) -> (r: Option<String>)
        ensures
            r.deep_view() == self@.tenant_of(timer@),
    {
        match self.timers.get(timer) {
            Some(t) => copy_option(&t.spec.tenant_id),
            None => None,
        }
    }

    /// Sets the state of a known timer.
    fn set_state(&mut self, timer: &str, state: TimerState)
        ensures
            final(self)@ == old(self)@.with_state(timer@, state),
    {
        if let Some(mut t) = self.timers.remove(timer) {
            t.state = state;
            self.timers.insert(timer.to_owned(), t);
            assert(self@ =~= old(self)@.with_state(timer@, state));
        } else {
            assert(self@ =~= old(self)@);
        }
    }

    /// Sets the state and the token of a known timer.
    fn set_token(&mut self, timer: &str, state: TimerState, fencing_token: u64)
        ensures
            final(self)@ == old(self)@.with_token(timer@, state, fencing_token),
    {
        if let Some(mut t) = self.timers.remove(timer) {
            t.state = state;
            t.fencing_token = fencing_token;
            self.timers.insert(timer.to_owned(), t);
            assert(self@ =~= old(self)@.with_token(timer@, state, fencing_token));
        } else {
            assert(self@ =~= old(self)@);
        }
    }

    /// Sets the next run of a timer.
    fn set_next(&mut self, timer: &str, next: Option<Timestamp>)
        ensures
            final(self)@ == old(self)@.with_next(timer@, next.deep_view()),
    {
        match next {
            Some(at) => {
                self.next_runs.insert(timer.to_owned(), at);
            },
            None => {
                self.next_runs.remove(timer);
            },
        }
    }

    /// Adds an entry to the history.
    fn note(&mut self, entry: HistoryEntry)
        ensures
            final(self)@ == old(self)@.noted(entry@),
    {
        let ghost e = entry@;
        let ghost before = self.history.deep_view();
        self.history.push(entry);
        assert(self.history.deep_view() =~= before.push(e));
    }

    /// The entry that tells of a run.
    fn run_entry(
        &self,
        kind: HistoryKind,
        timer: &str,
        run_id: &str,
        worker_id: &str,
        fencing_token: u64,
    ) -> (r: HistoryEntry)
        ensures
            r@ == self@.run_entry(kind, timer@, run_id@, worker_id@, fencing_token),
    {
        HistoryEntry {
            kind,
            timer: Some(timer.to_owned()),
            tenant_id: self.timer_tenant(timer),
            run_id: Some(run_id.to_owned()),
            worker_id: Some(worker_id.to_owned()),
            fencing_token: Some(fencing_token),
            error: None,
            ts: None,
        }
    }

    /// Whether a run of the timer is active.
    pub fn is_active(&self, timer: &str) -> (r: bool)
        ensures
            r == self@.is_active(timer@),
    {
        let n: usize = self.active_runs.len();
        let ghost order = self.active_runs.order();
        let mut i: usize = 0;
        while i < n
            invariant
                n == order.len(),
                order == self.active_runs.order(),
                i <= n,
                forall|run: Seq<char>| #[trigger]
                    self@.active_runs.dom().contains(run) <==> order.contains(run),
                forall|k: int|
                    0 <= k < i ==> self@.active_runs[#[trigger] order[k]].timer_id != timer@,
            decreases n - i,
        {
            let run = self.active_runs.value_at(i);
            if same(run.timer_id.as_str(), timer) {
                assert(self@.active_runs.dom().contains(order[i as int]));
                return true;
            }
            i = i + 1;
        }
        proof {
            if self@.is_active(timer@) {
                let run = choose|run: Seq<char>| #[trigger]
                    self@.active_runs.dom().contains(run) && self@.active_runs[run].timer_id
                        == timer@;
                assert(order.contains(run));
                assert(order[order.index_of(run)] == run);
            }
        }
        false
    }

    /// Whether the worker holds the run under the token.
    fn holds(&self, run_id: &str, worker_id: &str, fencing_token: u64) -> (r: bool)
        ensures
            r == self@.holds(run_id@, worker_id@, fencing_token),
    {
        match self.active_runs.get(run_id) {
            Some(active) => same(&active.worker_id, worker_id) && active.fencing_token
                == fencing_token,
            None => false,
        }
    }

    /// Takes the first run of the name out of those that wait.
    fn drop_pending(&mut self, run_id: &str)
        ensures
            final(self)@ == (MachineView {
                pending: without_run(old(self)@.pending, run_id@),
                ..old(self)@
            }),
    {
        let ghost before = self.pending.deep_view();
        let mut at: usize = 0;
        while at < self.pending.len() && !same(&self.pending[at].run_id, run_id)
            invariant
                at <= self.pending@.len(),
                before == self.pending.deep_view(),
                self@ == old(self)@,
                forall|i: int| 0 <= i < at ==> (#[trigger] before[i]).run_id != run_id@,
            decreases self.pending@.len() - at,
        {
            assert(before[at as int] == self.pending@[at as int]@);
            at = at + 1;
        }
        if at < self.pending.len() {
            proof {
                assert(before[at as int] == self.pending@[at as int]@);
                assert(first_of_name(before, run_id@, at as int));
                let chosen = choose|at: int| first_of_name(before, run_id@, at);
                assert(chosen == at);
            }
            self.pending.remove(at);
            assert(self.pending.deep_view() =~= before.remove(at as int));
        } else {
            assert forall|i: int| !first_of_name(before, run_id@, i) by {}
        }
    }

    /// Computes the next run of a timer from an instant on.
    fn reschedule_timer(&mut self, timer: &str, after: Timestamp)
        requires
            old(self)@.timers.dom().contains(timer@) && !old(
                self,
            )@.timers[timer@].spec.schedule.one_shot() ==> old(
                self,
            )@.timers[timer@].spec.schedule.can_run_after(
                after@,
                old(self)@.timers[timer@].spec.timezone,
            ),
        ensures
            final(self)@ == old(self)@.rescheduled(timer@, after@),
    {
        let next = match self.timers.get(timer) {
            None => {
                return;
            },
            Some(t) => match t.spec.schedule {
                Schedule::At { .. } | Schedule::After { .. } => None,
                _ => match t.spec.schedule.next_run_after(after, &t.spec.timezone) {
                    Ok(next) => next,
                    Err(_) => None,
                },
            },
        };
        self.set_next(timer, next);
    }

    /// Whether the next run that the command makes necessary can be computed and the token
    /// of the timer that it tries again can be raised.
    pub fn apply_fits(&self, command: &RaftCommand) -> (r: bool)
        ensures
            r == self@.can_apply(command@),
    {
        match command {
            RaftCommand::CompleteRun { run_id, worker_id, fencing_token, completed_at } => {
                if !self.holds(&run_id.0, worker_id, *fencing_token) {
                    return true;
                }
                match self.active_runs.get(&run_id.0) {
                    None => true,
                    Some(active) => match self.timers.get(active.timer_id.as_str()) {
                        None => true,
                        Some(t) => t.spec.schedule.is_one_shot() || t.spec.schedule.fits(
                            *completed_at,
                            &t.spec.timezone,
                        ),
                    },
                }
            },
            RaftCommand::FailRun { run_id, worker_id, fencing_token, .. } => {
                if !self.holds(&run_id.0, worker_id, *fencing_token) {
                    return true;
                }
                match self.active_runs.get(&run_id.0) {
                    None => true,
                    Some(active) => match self.timers.get(active.timer_id.as_str()) {
                        None => true,
                        Some(t) => !self.may_retry(active) || !matches!(
                            t.spec.target,
                            TimerTarget::WorkerTask { .. }
                        ) || t.fencing_token < u64::MAX,
                    },
                }
            },
            _ => true,
        }
    }

    /// Applies a command.
    pub fn apply_kron_command(&mut self, command: &RaftCommand)
        requires
            old(self)@.can_apply(command@),
        ensures
            final(self)@ == old(self)@.apply(command@),
    {
        match command {
            RaftCommand::CreateTimer { spec, next_run_at } => {
                self.create_timer(spec, *next_run_at);
            },
            RaftCommand::UpdateTimer { spec, next_run_at } => {
                self.create_timer(spec, *next_run_at);
            },
            RaftCommand::CancelTimer { timer_id } => {
                self.set_state(timer_id.as_str(), TimerState::Cancelled);
                self.set_next(timer_id.as_str(), None);
            },
            RaftCommand::PauseTimer { timer_id } => {
                self.set_state(timer_id.as_str(), TimerState::Paused);
                self.set_next(timer_id.as_str(), None);
            },
            RaftCommand::ResumeTimer { timer_id, next_run_at } => {
                self.set_state(timer_id.as_str(), TimerState::Scheduled);
                self.set_next(timer_id.as_str(), *next_run_at);
            },
            RaftCommand::ClaimRun {
                timer_id,
                run_id,
                worker_id,
                fencing_token,
                attempt,
                lease_deadline,
            } => {
                self.claim_run(
                    timer_id,
                    run_id,
                    worker_id,
                    *fencing_token,
                    *attempt,
                    *lease_deadline,
                );
            },
            RaftCommand::CompleteRun { run_id, worker_id, fencing_token, completed_at } => {
                self.complete_run(run_id, worker_id, *fencing_token, *completed_at);
            },
            RaftCommand::FailRun { run_id, worker_id, fencing_token, error, .. } => {
                self.fail_run(run_id, worker_id, *fencing_token, error);
            },
            RaftCommand::ExpireRunLease { run_id, replacement, .. } => {
                self.expire_run(run_id, replacement);
            },
            RaftCommand::HeartbeatWorker { worker_id, lease_until } => {
                if let Some(mut worker) = self.workers.remove(worker_id) {
                    worker.lease_until = *lease_until;
                    self.workers.insert(worker_id.clone(), worker);
                    let mut entry = HistoryEntry::bare(HistoryKind::WorkerHeartbeat);
                    entry.worker_id = Some(worker_id.clone());
                    self.note(entry);
                    assert(self@ =~= old(self)@.apply(command@));
                } else {
                    assert(self@ =~= old(self)@);
                }
            },
            RaftCommand::RegisterWorker { worker_id, tasks, lease_until } => {
                let worker = PersistedWorker {
                    tasks: copy_texts(tasks),
                    lease_until: *lease_until,
                };
                self.workers.insert(worker_id.clone(), worker);
                let mut entry = HistoryEntry::bare(HistoryKind::WorkerRegistered);
                entry.worker_id = Some(worker_id.clone());
                self.note(entry);
            },
            RaftCommand::UnregisterWorker { worker_id } => {
                self.workers.remove(worker_id);
            },
            RaftCommand::AddNode { node } => {
                self.nodes.insert(node.node_id.clone(), node.clone());
            },
            RaftCommand::RemoveNode { node_id } => {
                self.nodes.remove(node_id);
            },
        }
    }

    fn create_timer(&mut self, spec: &DistributedTimerSpec, next_run_at: Option<Timestamp>)
        ensures
            final(self)@ == old(self)@.created(spec@, next_run_at.deep_view()),
    {
        let timer = PersistedTimer {
            spec: spec.clone(),
            state: TimerState::Scheduled,
            fencing_token: 0,
        };
        self.timers.insert(spec.id.0.clone(), timer);
        self.set_next(spec.id.as_str(), next_run_at);
        let mut entry = HistoryEntry::bare(HistoryKind::TimerCreated);
        entry.timer = Some(spec.id.0.clone());
        entry.tenant_id = copy_option(&spec.tenant_id);
        self.note(entry);
    }

    fn claim_run(
        &mut self,
        timer_id: &TimerId,
        run_id: &RunId,
        worker_id: &String,
        fencing_token: u64,
        attempt: u32,
        lease_deadline: Timestamp,
    )
        ensures
            final(self)@ == old(self)@.apply(
                CommandView::ClaimRun {
                    timer_id: timer_id@,
                    run_id: run_id@,
                    worker_id: worker_id@,
                    fencing_token,
                    attempt,
                    lease_deadline: lease_deadline@,
                },
            ),
    {
        if self.is_active(timer_id.as_str()) {
            return;
        }
        self.set_token(timer_id.as_str(), TimerState::Running, fencing_token);
        self.drop_pending(&run_id.0);
        self.active_runs.insert(
            run_id.0.clone(),
            PersistedActiveRun {
                timer_id: timer_id.clone(),
                run_id: run_id.clone(),
                worker_id: worker_id.clone(),
                fencing_token,
                attempt,
                lease_deadline,
            },
        );
        let entry = self.run_entry(
            HistoryKind::RunClaimed,
            timer_id.as_str(),
            &run_id.0,
            worker_id,
            fencing_token,
        );
        self.note(entry);
    }

    fn complete_run(
        &mut self,
        run_id: &RunId,
        worker_id: &String,
        fencing_token: u64,
        completed_at: Timestamp,
    )
        requires
            old(self)@.can_apply(
                CommandView::CompleteRun {
                    run_id: run_id@,
                    worker_id: worker_id@,
                    fencing_token,
                    completed_at: completed_at@,
                },
            ),
        ensures
            final(self)@ == old(self)@.apply(
                CommandView::CompleteRun {
                    run_id: run_id@,
                    worker_id: worker_id@,
                    fencing_token,
                    completed_at: completed_at@,
                },
            ),
    {
        if !self.holds(&run_id.0, worker_id, fencing_token) {
            return;
        }
        if let Some(active) = self.active_runs.remove(&run_id.0) {
            let timer = active.timer_id;
            self.set_state(timer.as_str(), TimerState::Scheduled);
            self.reschedule_timer(timer.as_str(), completed_at);
            let entry = self.run_entry(
                HistoryKind::RunSucceeded,
                timer.as_str(),
                &run_id.0,
                worker_id,
                fencing_token,
            );
            self.note(entry);
        }
    }

    /// Whether a run has attempts left.
    fn may_retry(&self, active: &PersistedActiveRun) -> (r: bool)
        ensures
            r == self@.attempts_left(active@),
    {
        match self.timers.get(active.timer_id.as_str()) {
            None => false,
            Some(t) => active.attempt < t.spec.retry.max_attempts,
        }
    }

    /// The next attempt of a run that has failed.
    fn retry_run(&self, active: &PersistedActiveRun) -> (r: Option<WorkerRun>)
        requires
            self@.retry_of(active@) is Some ==> self@.timers[active.timer_id@].fencing_token
                < u64::MAX,
        ensures
            r.deep_view() == self@.retry_of(active@),
    {
        let timer = active.timer_id.as_str();
        match self.timers.get(timer) {
            None => None,
            Some(t) => {
                if active.attempt >= t.spec.retry.max_attempts {
                    return None;
                }
                match &t.spec.target {
                    TimerTarget::WorkerTask { task, payload } => Some(
                        WorkerRun {
                            timer: timer.to_owned(),
                            tenant_id: copy_option(&t.spec.tenant_id),
                            run_id: active.run_id.0.clone(),
                            task: task.clone(),
                            payload: payload.clone(),
                            attempt: active.attempt + 1,
                            fencing_token: t.fencing_token + 1,
                            idempotency_key: concat3(timer, ":failed:", &active.run_id.0),
                        },
                    ),
                    _ => None,
                }
            },
        }
    }

    /// Lets another attempt of a run wait for a worker.
    fn requeue(&mut self, run: WorkerRun)
        ensures
            final(self)@ == old(self)@.retried(run@),
    {
        self.set_token(&run.timer, TimerState::Retrying, run.fencing_token);
        let ghost before = self.pending.deep_view();
        let ghost added = run@;
        self.pending.push(run);
        assert(self.pending.deep_view() =~= before.push(added));
    }

    fn fail_run(
        &mut self,
        run_id: &RunId,
        worker_id: &String,
        fencing_token: u64,
        error: &String,
    )
        requires
            forall|failed_at: TimeView| #[trigger]
                old(self)@.can_apply(
                    CommandView::FailRun {
                        run_id: run_id@,
                        worker_id: worker_id@,
                        fencing_token,
                        error: error@,
                        failed_at,
                    },
                ),
        ensures
            forall|failed_at: TimeView|
                final(self)@ == #[trigger] old(self)@.apply(
                    CommandView::FailRun {
                        run_id: run_id@,
                        worker_id: worker_id@,
                        fencing_token,
                        error: error@,
                        failed_at,
                    },
                ),
    {
        proof {
            assert(self@.can_apply(
                CommandView::FailRun {
                    run_id: run_id@,
                    worker_id: worker_id@,
                    fencing_token,
                    error: error@,
                    failed_at: TimeView { secs: 0, nanos: 0 },
                },
            ));
        }
        if !self.holds(&run_id.0, worker_id, fencing_token) {
            return;
        }
        if let Some(active) = self.active_runs.remove(&run_id.0) {
            let retry = self.retry_run(&active);
            let left = self.may_retry(&active);
            let mut entry = self.run_entry(
                HistoryKind::RunFailed,
                active.timer_id.as_str(),
                &run_id.0,
                worker_id,
                fencing_token,
            );
            entry.error = Some(error.clone());
            self.note(entry);
            match retry {
                Some(run) => {
                    self.requeue(run);
                },
                None => {
                    let state = if left {
                        TimerState::Scheduled
                    } else {
                        TimerState::Dead
                    };
                    self.set_state(active.timer_id.as_str(), state);
                },
            }
        }
    }

    fn expire_run(&mut self, run_id: &RunId, replacement: &Option<WorkerRun>)
        ensures
            forall|expired_at: TimeView|
                final(self)@ == #[trigger] old(self)@.apply(
                    CommandView::ExpireRunLease {
                        run_id: run_id@,
                        replacement: replacement.deep_view(),
                        expired_at,
                    },
                ),
    {
        match self.active_runs.remove(&run_id.0) {
            None => {
                assert(self@ =~= old(self)@);
            },
            Some(active) => {
                let entry = self.run_entry(
                    HistoryKind::RunLeaseExpired,
                    active.timer_id.as_str(),
                    &active.run_id.0,
                    &active.worker_id,
                    active.fencing_token,
                );
                self.note(entry);
                match replacement {
                    Some(run) => {
                        self.requeue(run.clone());
                    },
                    None => {
                        self.set_state(active.timer_id.as_str(), TimerState::Dead);
                    },
                }
            },
        }
    }
}

/// The answer to an entry that was applied.
#[derive(Debug, Clone, Copy, PartialEq, Eq, Structural)]
pub struct KronRaftResponse {
    pub applied: bool,
}

impl MachineView {
    /// What an entry of the log makes of the state machine.
    pub open spec fn apply_entry(self, entry: EntryView) -> MachineView {
        let reached = MachineView { last_applied_log_id: Some(entry.log_id), ..self };
        match entry.payload {
            PayloadView::Blank => reached,
            PayloadView::Normal(command) => reached.apply(command),
            PayloadView::Membership(membership) => MachineView {
                last_membership: MembershipView { log_id: Some(entry.log_id), membership },
                ..reached
            },
        }
    }

    /// What entries of the log, one after the other, make of the state machine.
    pub open spec fn apply_all(self, entries: Seq<EntryView>) -> MachineView
        decreases entries.len(),
    {
        if entries.len() == 0 {
            self
        } else {
            self.apply_all(entries.drop_last()).apply_entry(entries.last())
        }
    }

    /// Whether the entry can be applied.
    pub open spec fn can_apply_entry(self, entry: EntryView) -> bool {
        match entry.payload {
            PayloadView::Normal(command) => self.can_apply(command),
            _ => true,
        }
    }

    /// Whether all entries can be applied, one after the other.
    pub open spec fn can_apply_all(self, entries: Seq<EntryView>) -> bool {
        forall|i: int|
            0 <= i < entries.len() ==> self.apply_all(#[trigger] entries.take(i)).can_apply_entry(
                entries[i],
            )
    }

    /// What is shown of a timer.
    pub open spec fn summary(self, id: Seq<char>) -> DistributedSummaryView {
        let timer = self.timers[id];
        DistributedSummaryView {
            id,
            tenant_id: timer.spec.tenant_id,
            state: timer.state,
            target: timer.spec.target,
            next_run_at: crate::state::found(self.next_runs, id),
            last_status: crate::cluster::latest_kind(self.history, id),
            fencing_token: timer.fencing_token,
        }
    }

    /// What the server sees of the state machine.
    pub open spec fn app_state(self) -> AppView {
        AppView {
            specs: Map::new(
                |id: Seq<char>| self.timers.dom().contains(id),
                |id: Seq<char>| self.timers[id].spec,
            ),
            timers: Map::new(
                |id: Seq<char>| self.timers.dom().contains(id),
                |id: Seq<char>| self.summary(id),
            ),
            history: self.history,
            pending: self.pending,
            active_runs: self.active_runs,
            nodes: self.nodes,
        }
    }
}

/// What the server sees of the state machine.
pub struct RaftAppState {
    pub specs: StrMap<DistributedTimerSpec>,
    pub timers: StrMap<DistributedSummary>,
    pub history: Vec<HistoryEntry>,
    pub pending: Vec<WorkerRun>,
    pub active_runs: StrMap<PersistedActiveRun>,
    pub nodes: StrMap<NodeInfo>,
}

/// A [`RaftAppState`] as a mathematical value.
#[verifier::ext_equal]
pub struct AppView {
    pub specs: Map<Seq<char>, DistributedSpecView>,
    pub timers: Map<Seq<char>, DistributedSummaryView>,
    pub history: Seq<HistoryView>,
    pub pending: Seq<WorkerRunView>,
    pub active_runs: Map<Seq<char>, ActiveRunView>,
    pub nodes: Map<Seq<char>, NodeView>,
}

impl View for RaftAppState {
    type V = AppView;

    open spec fn view(&self) -> AppView {
        AppView {
            specs: self.specs@,
            timers: self.timers@,
            history: self.history.deep_view(),
            pending: self.pending.deep_view(),
            active_runs: self.active_runs@,
            nodes: self.nodes@,
        }
    }
}

/// A copy of a history.
pub fn copy_history(history: &Vec<HistoryEntry>) -> (r: Vec<HistoryEntry>)
    ensures
        r.deep_view() == history.deep_view(),
{
    let mut out: Vec<HistoryEntry> = Vec::new();
    let mut i: usize = 0;
    while i < history.len()
        invariant
            i <= history@.len(),
            out@.len() == i,
            forall|k: int| 0 <= k < i ==> (#[trigger] out@[k])@ == history@[k]@,
        decreases history@.len() - i,
    {
        out.push(history[i].clone());
        i = i + 1;
    }
    assert(out.deep_view() =~= history.deep_view());
    out
}

/// A copy of a list of runs.
pub fn copy_runs(runs: &Vec<WorkerRun>) -> (r: Vec<WorkerRun>)
    ensures
        r.deep_view() == runs.deep_view(),
{
    let mut out: Vec<WorkerRun> = Vec::new();
    let mut i: usize = 0;
    while i < runs.len()
        invariant
            i <= runs@.len(),
            out@.len() == i,
            forall|k: int| 0 <= k < i ==> (#[trigger] out@[k])@ == runs@[k]@,
        decreases runs@.len() - i,
    {
        out.push(runs[i].clone());
        i = i + 1;
    }
    assert(out.deep_view() =~= runs.deep_view());
    out
}

impl PersistedStateMachine {
    /// What is shown of a timer.
    fn summary(&self, id: &str, timer: &PersistedTimer) -> (r: DistributedSummary)
        requires
            self@.timers.dom().contains(id@),
            self@.timers[id@] == timer@,
        ensures
            r@ == self@.summary(id@),
    {
        let next_run_at = match self.next_runs.get(id) {
            Some(at) => Some(*at),
            None => None,
        };
        DistributedSummary {
            id: id.to_owned(),
            tenant_id: copy_option(&timer.spec.tenant_id),
            state: timer.state,
            target: timer.spec.target.clone(),
            next_run_at,
            last_status: last_status(&self.history, id),
            fencing_token: timer.fencing_token,
        }
    }

    /// What the server sees of the state machine.
    pub fn app_state(&self) -> (r: RaftAppState)
        ensures
            r@ == self@.app_state(),
    {
        let mut specs: StrMap<DistributedTimerSpec> = StrMap::new();
        let mut timers: StrMap<DistributedSummary> = StrMap::new();
        let n: usize = self.timers.len();
        let ghost order = self.timers.order();
        let ghost machine = self@;
        let mut i: usize = 0;
        while i < n
            invariant
                n == order.len(),
                order == self.timers.order(),
                machine == self@,
                i <= n,
                forall|id: Seq<char>| #[trigger]
                    machine.timers.dom().contains(id) <==> order.contains(id),
                forall|id: Seq<char>| #[trigger]
                    specs@.dom().contains(id) <==> order.take(i as int).contains(id),
                forall|id: Seq<char>| #[trigger]
                    timers@.dom().contains(id) <==> order.take(i as int).contains(id),
                forall|id: Seq<char>| #[trigger]
                    specs@.dom().contains(id) ==> specs@[id] == machine.timers[id].spec,
                forall|id: Seq<char>| #[trigger]
                    timers@.dom().contains(id) ==> timers@[id] == machine.summary(id),
            decreases n - i,
        {
            let id = self.timers.key_at(i);
            let timer = self.timers.value_at(i);
            proof {
                taken_contains(order, i as int);
            }
            specs.insert(id.clone(), timer.spec.clone());
            timers.insert(id.clone(), self.summary(id, timer));
            i = i + 1;
        }
        let r = RaftAppState {
            specs,
            timers,
            history: copy_history(&self.history),
            pending: copy_runs(&self.pending),
            active_runs: self.active_runs.duplicate(),
            nodes: self.nodes.duplicate(),
        };
        proof {
            assert(order.take(n as int) =~= order);
            assert(r@.specs =~= machine.app_state().specs);
            assert(r@.timers =~= machine.app_state().timers);
        }
        r
    }

    /// Applies an entry of the log.
    pub fn apply_entry(&mut self, entry: &StoredEntry) -> (r: KronRaftResponse)
        requires
            old(self)@.can_apply_entry(entry@),
        ensures
            final(self)@ == old(self)@.apply_entry(entry@),
            r == (KronRaftResponse { applied: true }),
    {
        self.last_applied_log_id = Some(entry.log_id);
        match &entry.payload {
            EntryPayload::Blank => {},
            EntryPayload::Normal(command) => {
                self.apply_kron_command(command);
            },
            EntryPayload::Membership(membership) => {
                self.last_membership = StoredMembership {
                    log_id: Some(entry.log_id),
                    membership: membership.clone(),
                };
            },
        }
        KronRaftResponse { applied: true }
    }
}

proof fn taken_contains(order: Seq<Seq<char>>, i: int)
    requires
        0 <= i < order.len(),
    ensures
        forall|id: Seq<char>| #[trigger]
            order.take(i + 1).contains(id) <==> order.take(i).contains(id) || id == order[i],
{
    let (now, next) = (order.take(i), order.take(i + 1));
    assert(next[i] == order[i]);
    assert forall|id: Seq<char>| #[trigger] next.contains(id) <==> now.contains(id) || id
        == order[i] by {
        if now.contains(id) {
            assert(next[now.index_of(id)] == id);
        }
        if next.contains(id) && id != order[i] {
            assert(now[next.index_of(id)] == id);
        }
    }
}

/// The vote of a node: its term, for whom, and whether a majority has granted it.
#[derive(Debug, Clone, Copy, PartialEq, Eq, Structural)]
pub struct StoredVote {
    pub term: u64,
    pub node_id: u64,
    pub committed: bool,
}

/// All that a node keeps of the replicated log.
pub struct KronRaftFileStore {
    pub vote: Option<StoredVote>,
    pub committed: Option<LogId>,
    pub last_purged_log_id: Option<LogId>,
    pub logs: EntryLog,
    pub state_machine: PersistedStateMachine,
}

/// A [`KronRaftFileStore`] as a mathematical value.
#[verifier::ext_equal]
pub struct StoreView {
    pub vote: Option<StoredVote>,
    pub committed: Option<LogId>,
    pub last_purged_log_id: Option<LogId>,
    pub logs: Map<u64, EntryView>,
    pub state_machine: MachineView,
}

impl View for KronRaftFileStore {
    type V = StoreView;

    open spec fn view(&self) -> StoreView {
        StoreView {
            vote: self.vote,
            committed: self.committed,
            last_purged_log_id: self.last_purged_log_id,
            logs: self.logs@,
            state_machine: self.state_machine@,
        }
    }
}

/// The log with entries added, one after the other.
pub open spec fn appended(logs: Map<u64, EntryView>, entries: Seq<EntryView>) -> Map<u64, EntryView>
    decreases entries.len(),
{
    if entries.len() == 0 {
        logs
    } else {
        appended(logs, entries.drop_last()).insert(entries.last().log_id.index, entries.last())
    }
}

impl StoreView {
    /// The place of the last entry: of the largest index in the log, or of the last that
    /// was purged if the log is empty.
    pub open spec fn is_last(self, id: Option<LogId>) -> bool {
        if self.logs == Map::<u64, EntryView>::empty() {
            id == self.last_purged_log_id
        } else {
            &&& id is Some
            &&& self.logs.dom().contains(id->0.index)
            &&& self.logs[id->0.index].log_id == id->0
            &&& forall|index: u64| #[trigger] self.logs.dom().contains(index) ==> index
                <= id->0.index
        }
    }
}

impl KronRaftFileStore {
    /// The store of what was found on disk.
    pub fn open(
        vote: Option<StoredVote>,
        committed: Option<LogId>,
        last_purged_log_id: Option<LogId>,
        entries: Vec<StoredEntry>,
        state_machine: PersistedStateMachine,
    ) -> (r: Self)
        ensures
            r@ == (StoreView {
                vote,
                committed,
                last_purged_log_id,
                logs: appended(Map::empty(), entries.deep_view()),
                state_machine: state_machine@,
            }),
    {
        let mut store = KronRaftFileStore {
            vote,
            committed,
            last_purged_log_id,
            logs: EntryLog::new(),
            state_machine,
        };
        store.append(entries);
        store
    }

    /// Keeps a vote.
    pub fn save_vote(&mut self, vote: StoredVote)
        ensures
            final(self)@ == (StoreView { vote: Some(vote), ..old(self)@ }),
    {
        self.vote = Some(vote);
    }

    /// Keeps up to where the log is committed.
    pub fn save_committed(&mut self, committed: Option<LogId>)
        ensures
            final(self)@ == (StoreView { committed, ..old(self)@ }),
    {
        self.committed = committed;
    }

    /// Adds entries to the log, in place of those with the same indexes.
    pub fn append(&mut self, entries: Vec<StoredEntry>)
        ensures
            final(self)@ == (StoreView {
                logs: appended(old(self)@.logs, entries.deep_view()),
                ..old(self)@
            }),
    {
        let ghost all = entries.deep_view();
        let ghost before = self@;
        assert(all.take(0) =~= Seq::<EntryView>::empty());
        for entry in it: entries
            invariant
                all == entries.deep_view(),
                it.seq() == entries@,
                self@ == (StoreView {
                    logs: appended(before.logs, all.take(it.index() as int)),
                    ..before
                }),
        {
            proof {
                let i = it.index() as int;
                assert(entry@ == all[i]);
                assert(all.take(i + 1).drop_last() =~= all.take(i));
            }
            self.logs.insert(entry);
        }
        assert(all.take(all.len() as int) =~= all);
    }

    /// Drops the entries from a place on.
    pub fn truncate(&mut self, log_id: LogId)
        ensures
            final(self)@ == (StoreView {
                logs: crate::openraft_adapter::entry_log::restricted(
                    old(self)@.logs,
                    IndexBound::Unbounded,
                    IndexBound::Excluded(log_id.index),
                ),
                ..old(self)@
            }),
    {
        self.logs.retain(IndexBound::Unbounded, IndexBound::Excluded(log_id.index));
    }

    /// Drops the entries up to a place.
    pub fn purge(&mut self, log_id: LogId)
        ensures
            final(self)@ == (StoreView {
                logs: crate::openraft_adapter::entry_log::restricted(
                    old(self)@.logs,
                    IndexBound::Excluded(log_id.index),
                    IndexBound::Unbounded,
                ),
                last_purged_log_id: Some(log_id),
                ..old(self)@
            }),
    {
        self.logs.retain(IndexBound::Excluded(log_id.index), IndexBound::Unbounded);
        self.last_purged_log_id = Some(log_id);
    }

    /// The last entry that was purged, and the last entry.
    pub fn get_log_state(&self) -> (r: (Option<LogId>, Option<LogId>))
        ensures
            r.0 == self@.last_purged_log_id,
            self@.is_last(r.1),
    {
        let last = match self.logs.last_log_id() {
            Some(id) => Some(id),
            None => self.last_purged_log_id,
        };
        (self.last_purged_log_id, last)
    }

    /// The entries between two ends of a range, in order.
    pub fn try_get_log_entries(&self, start: IndexBound, end: IndexBound) -> (r: Vec<StoredEntry>)
        ensures
            crate::openraft_adapter::entry_log::ascending(r.deep_view()),
            crate::openraft_adapter::entry_log::by_index(r.deep_view())
                == crate::openraft_adapter::entry_log::restricted(self@.logs, start, end),
    {
        self.logs.range(start, end)
    }

    /// Applies entries of the log, one after the other.
    pub fn apply(&mut self, entries: &Vec<StoredEntry>) -> (r: Vec<KronRaftResponse>)
        requires
            old(self)@.state_machine.can_apply_all(entries.deep_view()),
        ensures
            final(self)@ == (StoreView {
                state_machine: old(self)@.state_machine.apply_all(entries.deep_view()),
                ..old(self)@
            }),
            r@.len() == entries@.len(),
            forall|i: int| 0 <= i < r@.len() ==> #[trigger] r@[i] == (KronRaftResponse {
                applied: true,
            }),
    {
        let ghost all = entries.deep_view();
        let ghost before = self@;
        let mut responses: Vec<KronRaftResponse> = Vec::new();
        let mut i: usize = 0;
        assert(all.take(0) =~= Seq::<EntryView>::empty());
        while i < entries.len()
            invariant
                i <= entries@.len(),
                all == entries.deep_view(),
                before.state_machine.can_apply_all(all),
                self@ == (StoreView {
                    state_machine: before.state_machine.apply_all(all.take(i as int)),
                    ..before
                }),
                responses@.len() == i,
                forall|k: int| 0 <= k < i ==> #[trigger] responses@[k] == (KronRaftResponse {
                    applied: true,
                }),
            decreases entries@.len() - i,
        {
            proof {
                assert(all[i as int] == entries@[i as int]@);
                assert(before.state_machine.apply_all(all.take(i as int)).can_apply_entry(
                    all[i as int],
                ));
                assert(all.take(i + 1).drop_last() =~= all.take(i as int));
            }
            let response = self.state_machine.apply_entry(&entries[i]);
            responses.push(response);
            i = i + 1;
        }
        assert(all.take(all.len() as int) =~= all);
        responses
    }

    /// What the server sees of the state machine.
    pub fn app_state(&self) -> (r: RaftAppState)
        ensures
            r@ == self@.state_machine.app_state(),
    {
        self.state_machine.app_state()
    }

    /// The name of a snapshot of the state machine.
    pub fn snapshot_id(&self) -> (r: String)
        ensures
            r@ == "kron-"@ + crate::text::decimal(
                match self@.state_machine.last_applied_log_id {
                    Some(id) => id.index as nat,
                    None => 0,
                },
            ),
    {
        let index: u64 = match self.state_machine.last_applied_log_id {
            Some(id) => id.index,
            None => 0,
        };
        crate::text::concat("kron-", &crate::text::decimal_of(index))
    }

    /// Replaces the state machine by that of a snapshot, which stands where its metadata
    /// says.
    pub fn install_snapshot(
        &mut self,
        state_machine: PersistedStateMachine,
        last_log_id: Option<LogId>,
        last_membership: StoredMembership,
    )
        ensures
            final(self)@ == (StoreView {
                state_machine: MachineView {
                    last_applied_log_id: last_log_id,
                    last_membership: last_membership@,
                    ..state_machine@
                },
                ..old(self)@
            }),
    {
        self.state_machine = state_machine;
        self.state_machine.last_applied_log_id = last_log_id;
        self.state_machine.last_membership = last_membership;
    }
}

/// Whether a manifest is of the version that is read; if not, the reason.
pub fn check_manifest(format_version: u32) -> (r: Result<(), String>)
    ensures
        match r {
            Ok(_) => format_version == STORE_FORMAT_VERSION,
            Err(message) => format_version != STORE_FORMAT_VERSION && message@
                == "unsupported raft storage format version "@ + crate::text::decimal(
                format_version as nat,
            ),
        },
{
    if format_version == STORE_FORMAT_VERSION {
        Ok(())
    } else {
        Err(
            crate::text::concat(
                "unsupported raft storage format version ",
                &crate::text::decimal_of(format_version as u64),
            ),
        )
    }
}

/// Whether a store of the old form is in the way; if so, the reason.
pub fn check_legacy_store(exists: bool) -> (r: Result<(), String>)
    ensures
        match r {
            Ok(_) => !exists,
            Err(message) => exists && message@
                == "alpha JSON Raft storage requires manual migration"@,
        },
{
    if exists {
        Err("alpha JSON Raft storage requires manual migration".to_string())
    } else {
        Ok(())
    }
}

/// The reason why there is no snapshot.
pub fn missing_snapshot_io() -> (r: String)
    ensures
        r@ == "snapshot missing"@,
{
    "snapshot missing".to_string()
}

impl MachineView {
    /// Whether every active run goes by its own name and no two of them are of the same
    /// timer.
    pub open spec fn one_run_per_timer(self) -> bool {
        &&& forall|run: Seq<char>| #[trigger]
            self.active_runs.dom().contains(run) ==> self.active_runs[run].run_id == run
        &&& forall|a: Seq<char>, b: Seq<char>|
            self.active_runs.dom().contains(a) && self.active_runs.dom().contains(b)
                && (#[trigger] self.active_runs[a]).timer_id == (
            #[trigger] self.active_runs[b]).timer_id ==> a == b
    }
}

/// At no time do two workers hold a run of the same timer: it holds of the initial state
/// machine, and every command keeps it.
pub proof fn one_run_per_timer_is_kept(
    machine: MachineView,
    command: CommandView,
    membership: Seq<char>,
)
    requires
        machine.one_run_per_timer(),
    ensures
        MachineView::initial(membership).one_run_per_timer(),
        machine.apply(command).one_run_per_timer(),
{
    let next = machine.apply(command);
    if command is ClaimRun && !machine.is_active(command->ClaimRun_timer_id) {
        let timer = command->ClaimRun_timer_id;
        let run_id = command->ClaimRun_run_id;
        assert forall|a: Seq<char>, b: Seq<char>|
            next.active_runs.dom().contains(a) && next.active_runs.dom().contains(b) && (
            #[trigger] next.active_runs[a]).timer_id == (#[trigger] next.active_runs[b]).timer_id implies a
            == b by {
            if a == run_id && b != run_id {
                assert(machine.active_runs.dom().contains(b));
                assert(machine.active_runs[b].timer_id == timer);
            } else if b == run_id && a != run_id {
                assert(machine.active_runs.dom().contains(a));
                assert(machine.active_runs[a].timer_id == timer);
            } else if a != run_id && b != run_id {
                assert(machine.active_runs[a].timer_id == machine.active_runs[b].timer_id);
            }
        }
    } else {
        assert forall|a: Seq<char>, b: Seq<char>|
            next.active_runs.dom().contains(a) && next.active_runs.dom().contains(b) && (
            #[trigger] next.active_runs[a]).timer_id == (#[trigger] next.active_runs[b]).timer_id implies a
            == b by {
            assert(machine.active_runs.dom().contains(a));
            assert(machine.active_runs.dom().contains(b));
            assert(machine.active_runs[a] == next.active_runs[a]);
            assert(machine.active_runs[b] == next.active_runs[b]);
        }
    }
}

/// At no time do two workers hold a run of the same timer, whatever entries were applied.
pub proof fn one_run_per_timer_always(entries: Seq<EntryView>, membership: Seq<char>)
    ensures
        MachineView::initial(membership).apply_all(entries).one_run_per_timer(),
    decreases entries.len(),
{
    let start = MachineView::initial(membership);
    if entries.len() > 0 {
        one_run_per_timer_always(entries.drop_last(), membership);
        let before = start.apply_all(entries.drop_last());
        let entry = entries.last();
        let reached = MachineView { last_applied_log_id: Some(entry.log_id), ..before };
        assert(reached.active_runs == before.active_runs);
        assert(reached.one_run_per_timer());
        if let PayloadView::Normal(command) = entry.payload {
            one_run_per_timer_is_kept(reached, command, membership);
        }
    }
}

/// A claim of a timer that has an active run changes nothing: the first claim wins.
pub proof fn second_claim_changes_nothing(
    machine: MachineView,
    timer_id: Seq<char>,
    run_id: Seq<char>,
    worker_id: Seq<char>,
    fencing_token: u64,
    attempt: u32,
    lease_deadline: TimeView,
)
    requires
        machine.is_active(timer_id),
    ensures
        machine.apply(
            CommandView::ClaimRun {
                timer_id,
                run_id,
                worker_id,
                fencing_token,
                attempt,
                lease_deadline,
            },
        ) == machine,
{
}

/// Who does not hold the run under its token, be it because the lease was given to
/// another worker or because the run is over, can neither complete nor fail it.
pub proof fn stale_worker_changes_nothing(
    machine: MachineView,
    run_id: Seq<char>,
    worker_id: Seq<char>,
    fencing_token: u64,
    error: Seq<char>,
    at: TimeView,
)
    requires
        !machine.holds(run_id, worker_id, fencing_token),
    ensures
        machine.apply(
            CommandView::CompleteRun { run_id, worker_id, fencing_token, completed_at: at },
        ) == machine,
        machine.apply(
            CommandView::FailRun { run_id, worker_id, fencing_token, error, failed_at: at },
        ) == machine,
{
}

/// A run is completed or failed at most once: after that nobody holds it.
pub proof fn run_ends_once(
    machine: MachineView,
    run_id: Seq<char>,
    worker_id: Seq<char>,
    fencing_token: u64,
    error: Seq<char>,
    at: TimeView,
    other_worker: Seq<char>,
    other_token: u64,
)
    requires
        machine.holds(run_id, worker_id, fencing_token),
    ensures
        !machine.apply(
            CommandView::CompleteRun { run_id, worker_id, fencing_token, completed_at: at },
        ).holds(run_id, other_worker, other_token),
        !machine.apply(
            CommandView::FailRun { run_id, worker_id, fencing_token, error, failed_at: at },
        ).holds(run_id, other_worker, other_token),
        !machine.apply(
            CommandView::ExpireRunLease { run_id, replacement: None, expired_at: at },
        ).holds(run_id, other_worker, other_token),
{
}

/// A run that its holder fails is over, and its failure is told of with the error. The
/// timer is dead if and only if that was the last attempt. While there are attempts left,
/// the next one of a task for workers waits under a greater token; any other timer is
/// scheduled as before.
pub proof fn failed_run_is_tried_again(
    machine: MachineView,
    run_id: Seq<char>,
    worker_id: Seq<char>,
    fencing_token: u64,
    error: Seq<char>,
    at: TimeView,
)
    requires
        machine.holds(run_id, worker_id, fencing_token),
        machine.timers.dom().contains(machine.active_runs[run_id].timer_id),
        machine.can_apply(
            CommandView::FailRun { run_id, worker_id, fencing_token, error, failed_at: at },
        ),
    ensures
        ({
            let active = machine.active_runs[run_id];
            let timer = active.timer_id;
            let after = machine.apply(
                CommandView::FailRun { run_id, worker_id, fencing_token, error, failed_at: at },
            );
            &&& after.active_runs == machine.active_runs.remove(run_id)
            &&& after.history.len() == machine.history.len() + 1
            &&& after.history.drop_last() == machine.history
            &&& after.history.last().kind == HistoryKind::RunFailed
            &&& after.history.last().run_id == Some(run_id)
            &&& after.history.last().error == Some(error)
            &&& after.next_runs == machine.next_runs
            &&& after.timers[timer].spec == machine.timers[timer].spec
            &&& after.timers[timer].state == TimerState::Dead <==> active.attempt
                >= machine.timers[timer].spec.retry.max_attempts
            &&& active.attempt < machine.timers[timer].spec.retry.max_attempts
                && !(machine.timers[timer].spec.target is WorkerTask) ==> {
                &&& after.timers[timer].state == TimerState::Scheduled
                &&& after.timers[timer].fencing_token == machine.timers[timer].fencing_token
                &&& after.pending == machine.pending
            }
            &&& active.attempt < machine.timers[timer].spec.retry.max_attempts
                && machine.timers[timer].spec.target is WorkerTask ==> {
                let run = after.pending.last();
                &&& after.timers[timer].state == TimerState::Retrying
                &&& after.pending.drop_last() == machine.pending
                &&& run.timer == timer
                &&& run.run_id == active.run_id
                &&& run.attempt == active.attempt + 1
                &&& run.fencing_token == after.timers[timer].fencing_token
                &&& run.fencing_token > machine.timers[timer].fencing_token
            }
            &&& active.attempt >= machine.timers[timer].spec.retry.max_attempts ==> {
                &&& after.timers[timer].state == TimerState::Dead
                &&& after.pending == machine.pending
            }
        }),
{
    let after = machine.apply(
        CommandView::FailRun { run_id, worker_id, fencing_token, error, failed_at: at },
    );
    assert(after.history.drop_last() =~= machine.history);
    if machine.retry_of(machine.active_runs[run_id]) is Some {
        assert(after.pending.drop_last() =~= machine.pending);
    }
}

/// A run whose lease has expired can be claimed again, and then only the new holder can
/// end it: the token of the old one is stale.
pub proof fn expired_run_is_fenced(
    machine: MachineView,
    run_id: Seq<char>,
    old_worker: Seq<char>,
    old_token: u64,
    replacement: WorkerRunView,
    new_run: Seq<char>,
    new_worker: Seq<char>,
    attempt: u32,
    deadline: TimeView,
    at: TimeView,
)
    requires
        machine.one_run_per_timer(),
        machine.holds(run_id, old_worker, old_token),
        replacement.timer == machine.active_runs[run_id].timer_id,
        replacement.fencing_token > old_token,
    ensures
        ({
            let timer = machine.active_runs[run_id].timer_id;
            let expired = machine.apply(
                CommandView::ExpireRunLease { run_id, replacement: Some(replacement), expired_at: at },
            );
            let claimed = expired.apply(
                CommandView::ClaimRun {
                    timer_id: timer,
                    run_id: new_run,
                    worker_id: new_worker,
                    fencing_token: replacement.fencing_token,
                    attempt,
                    lease_deadline: deadline,
                },
            );
            &&& !expired.is_active(timer)
            &&& claimed.holds(new_run, new_worker, replacement.fencing_token)
            &&& !claimed.holds(run_id, old_worker, old_token)
        }),
{
    let timer = machine.active_runs[run_id].timer_id;
    let expired = machine.apply(
        CommandView::ExpireRunLease { run_id, replacement: Some(replacement), expired_at: at },
    );
    assert(machine.active_runs.dom().contains(run_id));
    assert forall|run: Seq<char>| #[trigger] expired.active_runs.dom().contains(run) implies
        expired.active_runs[run].timer_id != timer by {
        assert(machine.active_runs.dom().contains(run));
        assert(machine.active_runs[run].timer_id == machine.active_runs[run_id].timer_id ==> run
            == run_id);
    }
}

/// A node that joins and leaves again leaves the other nodes as they were.
pub proof fn leaving_undoes_joining(machine: MachineView, node: NodeView)
    requires
        !machine.nodes.dom().contains(node.node_id),
    ensures
        machine.apply(CommandView::AddNode { node }).apply(
            CommandView::RemoveNode { node_id: node.node_id },
        ) == machine,
{
    assert(machine.apply(CommandView::AddNode { node }).apply(
        CommandView::RemoveNode { node_id: node.node_id },
    ) =~= machine);
}

/// Applying entries in two parts gives the same state machine as applying them at once,
/// so that a node that restarts within a log ends up where the others are.
pub proof fn apply_in_parts(machine: MachineView, first: Seq<EntryView>, second: Seq<EntryView>)
    ensures
        machine.apply_all(first + second) == machine.apply_all(first).apply_all(second),
    decreases second.len(),
{
    if second.len() == 0 {
        assert(first + second =~= first);
    } else {
        apply_in_parts(machine, first, second.drop_last());
        assert((first + second).drop_last() =~= first + second.drop_last());
        assert((first + second).last() == second.last());
    }
}

/// What is appended to the log is found in it, unless a later entry took its place.
pub proof fn log_keeps_what_it_is_given(
    logs: Map<u64, EntryView>,
    entries: Seq<EntryView>,
    i: int,
)
    requires
        0 <= i < entries.len(),
        forall|k: int| i < k < entries.len() ==> (#[trigger] entries[k]).log_id.index
            != entries[i].log_id.index,
    ensures
        appended(logs, entries).dom().contains(entries[i].log_id.index),
        appended(logs, entries)[entries[i].log_id.index] == entries[i],
    decreases entries.len(),
{
    if i < entries.len() - 1 {
        assert(entries[entries.len() - 1].log_id.index != entries[i].log_id.index);
        log_keeps_what_it_is_given(logs, entries.drop_last(), i);
    }
}

} // verus!
