//! A server that keeps its timers, workers and runs in memory and replicates its commands
//! to its peers. Writing the log of the commands and talking to the peers are up to the
//! caller.

use vstd::prelude::*;

use crate::cluster::{
    copy_texts,
    creation_of,
    entries_about,
    holds_text,
    last_status,
    ActiveRunView,
    ClusterConfig,
    CommandView,
    ConfigView,
    CreateTimerRequest,
    DistributedSpecView,
    DistributedSummary,
    DistributedSummaryView,
    DistributedTimerSpec,
    HistoryEntry,
    HistoryKind,
    HistoryView,
    JoinRequest,
    LeaveRequest,
    NodeInfo,
    NodeView,
    PersistedActiveRun,
    RaftCommand,
    RunCompleteRequest,
    RunFailRequest,
    TargetView,
    TimerTarget,
    WorkerRegisterRequest,
    WorkerRun,
    WorkerRunView,
};
use crate::error::{KronError, KronErrorView};

use crate::strmap::StrMap;
use crate::text::{concat, concat3, concat4, copy_option, decimal_of, same};
use crate::timer::{RunId, TimerId, TimerState};
use crate::timestamp::{to_rfc3339, TimeView, Timestamp};

verus! {

/// How long a worker that says nothing is counted on, and how long it may hold a run.
pub const LEASE_SECONDS: u64 = 30;

/// A worker, and until when it is counted on: milliseconds of a clock that only goes
/// forward.
#[derive(Debug)]
pub struct WorkerInfo {
    pub tasks: Vec<String>,
    pub lease_until: u64,
}

/// A [`WorkerInfo`] as a mathematical value.
pub struct WorkerInfoView {
    pub tasks: Seq<Seq<char>>,
    pub lease_until: u64,
}

impl View for WorkerInfo {
    type V = WorkerInfoView;

    open spec fn view(&self) -> WorkerInfoView {
        WorkerInfoView { tasks: self.tasks.deep_view(), lease_until: self.lease_until }
    }
}

/// All that a server knows.
pub struct ClusterState {
    pub config: ClusterConfig,
    pub timers: StrMap<DistributedTimerSpec>,
    pub states: StrMap<TimerState>,
    pub next_runs: StrMap<Timestamp>,
    pub history: Vec<HistoryEntry>,
    pub workers: StrMap<WorkerInfo>,
    /// The runs that wait for a worker, oldest first.
    pub pending: Vec<WorkerRun>,
    /// The runs that a worker has claimed, by their names.
    pub active_runs: StrMap<PersistedActiveRun>,
    pub fencing: StrMap<u64>,
    pub leader: bool,
    pub shutting_down: bool,
}

/// A [`ClusterState`] as a mathematical value.
#[verifier::ext_equal]
pub struct ClusterView {
    pub config: ConfigView,
    pub timers: Map<Seq<char>, DistributedSpecView>,
    pub states: Map<Seq<char>, TimerState>,
    pub next_runs: Map<Seq<char>, TimeView>,
    pub history: Seq<HistoryView>,
    pub workers: Map<Seq<char>, WorkerInfoView>,
    pub pending: Seq<WorkerRunView>,
    pub active_runs: Map<Seq<char>, ActiveRunView>,
    pub fencing: Map<Seq<char>, u64>,
    pub leader: bool,
    pub shutting_down: bool,
}

impl View for ClusterState {
    type V = ClusterView;

    open spec fn view(&self) -> ClusterView {
        ClusterView {
            config: self.config@,
            timers: self.timers@,
            states: self.states@,
            next_runs: self.next_runs@,
            history: self.history.deep_view(),
            workers: self.workers@,
            pending: self.pending.deep_view(),
            active_runs: self.active_runs@,
            fencing: self.fencing@,
            leader: self.leader,
            shutting_down: self.shutting_down,
        }
    }
}

/// The elements of a sequence of keys for which something holds, in order.
pub open spec fn keys_where(keys: Seq<Seq<char>>, wanted: spec_fn(Seq<char>) -> bool) -> Seq<
    Seq<char>,
>
    decreases keys.len(),
{
    if keys.len() == 0 {
        Seq::empty()
    } else {
        let front = keys_where(keys.drop_last(), wanted);
        if wanted(keys.last()) {
            front.push(keys.last())
        } else {
            front
        }
    }
}

proof fn keys_where_are_keys(keys: Seq<Seq<char>>, wanted: spec_fn(Seq<char>) -> bool)
    ensures
        forall|i: int|
            0 <= i < keys_where(keys, wanted).len() ==> keys.contains(
                #[trigger] keys_where(keys, wanted)[i],
            ) && wanted(keys_where(keys, wanted)[i]),
        keys.no_duplicates() ==> keys_where(keys, wanted).no_duplicates(),
    decreases keys.len(),
{
    if keys.len() > 0 {
        let front = keys.drop_last();
        keys_where_are_keys(front, wanted);
        let before = keys_where(front, wanted);
        let all = keys_where(keys, wanted);
        assert forall|i: int| 0 <= i < all.len() implies keys.contains(#[trigger] all[i])
            && wanted(all[i]) by {
            if i < before.len() {
                assert(all[i] == before[i]);
                assert(front.contains(before[i]));
                assert(keys[front.index_of(before[i])] == all[i]);
            } else {
                assert(keys[keys.len() - 1] == all[i]);
            }
        }
        if keys.no_duplicates() {
            assert(front.no_duplicates());
            assert forall|i: int, j: int|
                0 <= i < all.len() && 0 <= j < all.len() && i != j implies all[i] != all[j] by {
                if i < before.len() && j < before.len() {
                    assert(before[i] != before[j]);
                } else {
                    let (k, last) = (if i < before.len() { i } else { j }, keys.len() - 1);
                    assert(front.contains(before[k]));
                    let p = front.index_of(before[k]);
                    assert(keys[p] == before[k]);
                    assert(keys[p] != keys[last]);
                }
            }
        }
    }
}

impl ClusterView {
    /// A server that knows nothing yet.
    pub open spec fn initial(config: ConfigView) -> ClusterView {
        ClusterView {
            config,
            timers: Map::empty(),
            states: Map::empty(),
            next_runs: Map::empty(),
            history: Seq::empty(),
            workers: Map::empty(),
            pending: Seq::empty(),
            active_runs: Map::empty(),
            fencing: Map::empty(),
            leader: config.leader_id == config.node_id,
            shutting_down: false,
        }
    }

    /// The server with a timer in the given state.
    pub open spec fn with_state(self, timer: Seq<char>, state: TimerState) -> ClusterView {
        ClusterView { states: self.states.insert(timer, state), ..self }
    }

    /// The server with another entry in its history.
    pub open spec fn noted(self, entry: HistoryView) -> ClusterView {
        ClusterView { history: self.history.push(entry), ..self }
    }

    /// The server without a next run of a timer.
    pub open spec fn without_next(self, timer: Seq<char>) -> ClusterView {
        ClusterView { next_runs: self.next_runs.remove(timer), ..self }
    }

    /// The server once the next run of a timer is computed.
    pub open spec fn rescheduled(self, timer: Seq<char>, now: TimeView) -> ClusterView {
        if self.timers.dom().contains(timer) {
            match self.timers[timer].schedule.next(now, self.timers[timer].timezone) {
                Ok(Some(at)) => ClusterView { next_runs: self.next_runs.insert(timer, at), ..self },
                _ => self.without_next(timer),
            }
        } else {
            self
        }
    }

    /// Whether the next run of a timer can be computed.
    pub open spec fn can_reschedule(self, timer: Seq<char>, now: TimeView) -> bool {
        self.timers.dom().contains(timer) ==> self.timers[timer].schedule.can_run_after(
            now,
            self.timers[timer].timezone,
        )
    }

    /// The server with a new or changed timer, or why it cannot be.
    pub open spec fn created(self, spec: DistributedSpecView, now: TimeView) -> Result<
        ClusterView,
        KronErrorView,
    > {
        match spec.schedule.next(now, spec.timezone) {
            Err(error) => Err(error),
            Ok(next) => {
                let known = ClusterView {
                    timers: self.timers.insert(spec.id, spec),
                    next_runs: match next {
                        Some(at) => self.next_runs.insert(spec.id, at),
                        None => self.next_runs,
                    },
                    ..self.with_state(spec.id, TimerState::Scheduled)
                };
                Ok(
                    known.noted(
                        HistoryView {
                            timer: Some(spec.id),
                            ts: Some(now),
                            ..HistoryView::bare(HistoryKind::TimerCreated)
                        },
                    ),
                )
            },
        }
    }

    /// The token of a timer.
    pub open spec fn token_of(self, timer: Seq<char>) -> u64 {
        crate::state::lookup(self.fencing, timer, 0u64)
    }

    /// Whether a run of the timer is active.
    pub open spec fn is_active(self, timer: Seq<char>) -> bool {
        exists|run: Seq<char>| #[trigger]
            self.active_runs.dom().contains(run) && self.active_runs[run].timer_id == timer
    }

    /// Whether a run of the timer waits for a worker.
    pub open spec fn is_pending(self, timer: Seq<char>) -> bool {
        exists|i: int| 0 <= i < self.pending.len() && (#[trigger] self.pending[i]).timer == timer
    }

    /// Whether the worker holds the run under the token.
    pub open spec fn holds(self, run_id: Seq<char>, worker_id: Seq<char>, token: u64) -> bool {
        &&& self.active_runs.dom().contains(run_id)
        &&& self.active_runs[run_id].worker_id == worker_id
        &&& self.active_runs[run_id].fencing_token == token
    }

    /// Why the worker may not end the run, if it may not.
    pub open spec fn refusal(self, run_id: Seq<char>, worker_id: Seq<char>, token: u64) -> Option<
        KronErrorView,
    > {
        if !self.active_runs.dom().contains(run_id) {
            Some(KronErrorView::IpcUnavailable("run not active"@))
        } else if self.active_runs[run_id].worker_id != worker_id {
            Some(KronErrorView::IpcUnavailable("worker is not run owner"@))
        } else if self.active_runs[run_id].fencing_token != token {
            Some(KronErrorView::IpcUnavailable("stale fencing token"@))
        } else {
            None
        }
    }

    /// The server without the active run.
    pub open spec fn released(self, run_id: Seq<char>) -> ClusterView {
        ClusterView { active_runs: self.active_runs.remove(run_id), ..self }
    }

    /// The entry that tells of a run.
    pub open spec fn run_entry(
        kind: HistoryKind,
        timer: Seq<char>,
        run_id: Seq<char>,
        worker_id: Option<Seq<char>>,
        fencing_token: Option<u64>,
        now: TimeView,
    ) -> HistoryView {
        HistoryView {
            timer: Some(timer),
            run_id: Some(run_id),
            worker_id,
            fencing_token,
            ts: Some(now),
            ..HistoryView::bare(kind)
        }
    }

    /// Why the server takes no changes, if it does not lead.
    pub open spec fn not_leader(self) -> KronErrorView {
        KronErrorView::IpcUnavailable("not_leader: leader is "@ + self.config.leader_id)
    }

    /// Whether the command can be applied: the next runs that it makes necessary can be
    /// computed, the token of a timer that it tries again can be raised, and the lease that
    /// it grants ends within the range of the clock.
    pub open spec fn can_apply(self, command: CommandView, now: TimeView, tick: u64) -> bool {
        match command {
            CommandView::CreateTimer { spec, .. } => spec.schedule.can_run_after(now, spec.timezone),
            CommandView::UpdateTimer { spec, .. } => spec.schedule.can_run_after(now, spec.timezone),
            CommandView::ResumeTimer { timer_id, .. } => self.can_reschedule(timer_id, now),
            CommandView::CompleteRun { run_id, worker_id, fencing_token, .. } => self.holds(
                run_id,
                worker_id,
                fencing_token,
            ) ==> self.can_reschedule(self.active_runs[run_id].timer_id, now),
            CommandView::FailRun { run_id, worker_id, fencing_token, .. } => self.holds(
                run_id,
                worker_id,
                fencing_token,
            ) ==> self.can_fail(run_id),
            CommandView::HeartbeatWorker { .. } => tick + LEASE_SECONDS * 1000 <= u64::MAX,
            CommandView::RegisterWorker { .. } => tick + LEASE_SECONDS * 1000 <= u64::MAX,
            _ => true,
        }
    }

    /// What a command makes of the server, or why it cannot be applied.
    pub open spec fn apply(self, command: CommandView, now: TimeView, tick: u64) -> Result<
        ClusterView,
        KronErrorView,
    > {
        let lease_until = (tick + LEASE_SECONDS * 1000) as u64;
        match command {
            CommandView::CreateTimer { spec, .. } => self.created(spec, now),
            CommandView::UpdateTimer { spec, .. } => self.created(spec, now),
            CommandView::CancelTimer { timer_id } => Ok(
                self.with_state(timer_id, TimerState::Cancelled).without_next(timer_id),
            ),
            CommandView::PauseTimer { timer_id } => Ok(
                self.with_state(timer_id, TimerState::Paused).without_next(timer_id),
            ),
            CommandView::ResumeTimer { timer_id, .. } => Ok(
                self.with_state(timer_id, TimerState::Scheduled).rescheduled(timer_id, now),
            ),
            CommandView::ClaimRun {
                timer_id,
                run_id,
                worker_id,
                fencing_token,
                attempt,
                lease_deadline,
            } => Ok(
                if self.is_active(timer_id) {
                    self
                } else {
                    (ClusterView {
                        active_runs: self.active_runs.insert(
                            run_id,
                            ActiveRunView {
                                timer_id,
                                run_id,
                                worker_id,
                                fencing_token,
                                attempt,
                                lease_deadline,
                            },
                        ),
                        fencing: self.fencing.insert(timer_id, fencing_token),
                        ..self.with_state(timer_id, TimerState::Running)
                    }).noted(
                        ClusterView::run_entry(
                            HistoryKind::RunClaimed,
                            timer_id,
                            run_id,
                            Some(worker_id),
                            Some(fencing_token),
                            now,
                        ),
                    )
                },
            ),
            CommandView::CompleteRun { run_id, worker_id, fencing_token, .. } => Ok(
                if self.holds(run_id, worker_id, fencing_token) {
                    self.completed(run_id, Some(worker_id), now)
                } else {
                    self
                },
            ),
            CommandView::FailRun { run_id, worker_id, fencing_token, error, .. } => Ok(
                if self.holds(run_id, worker_id, fencing_token) {
                    self.failed(run_id, Some(worker_id), error, now)
                } else {
                    self
                },
            ),
            CommandView::ExpireRunLease { .. } => Ok(self),
            CommandView::HeartbeatWorker { worker_id, .. } => Ok(
                self.beating(worker_id, lease_until, now),
            ),
            CommandView::RegisterWorker { worker_id, tasks, .. } => Ok(
                self.registered(worker_id, tasks, lease_until, now),
            ),
            CommandView::UnregisterWorker { worker_id } => Ok(
                ClusterView { workers: self.workers.remove(worker_id), ..self },
            ),
            CommandView::AddNode { node } => Ok(self.joined(node)),
            CommandView::RemoveNode { node_id } => Ok(self.left(node_id)),
        }
    }

    /// The server once a run is completed.
    pub open spec fn completed(
        self,
        run_id: Seq<char>,
        worker_id: Option<Seq<char>>,
        now: TimeView,
    ) -> ClusterView {
        let active = self.active_runs[run_id];
        self.released(run_id).with_state(active.timer_id, TimerState::Scheduled).noted(
            ClusterView::run_entry(
                HistoryKind::RunSucceeded,
                active.timer_id,
                run_id,
                worker_id,
                Some(active.fencing_token),
                now,
            ),
        ).rescheduled(active.timer_id, now)
    }

    /// The server once a run has failed.
    pub open spec fn failed(
        self,
        run_id: Seq<char>,
        worker_id: Option<Seq<char>>,
        error: Seq<char>,
        now: TimeView,
    ) -> ClusterView {
        let active = self.active_runs[run_id];
        let told = self.released(run_id).noted(
            HistoryView {
                error: Some(error),
                ..ClusterView::run_entry(
                    HistoryKind::RunFailed,
                    active.timer_id,
                    run_id,
                    worker_id,
                    Some(active.fencing_token),
                    now,
                )
            },
        );
        if self.has_retry(active) {
            told.retried(active, "failed"@)
        } else {
            told.with_state(
                active.timer_id,
                if self.attempts_left(active) {
                    TimerState::Scheduled
                } else {
                    TimerState::Dead
                },
            )
        }
    }

    /// Whether a run has attempts left: its timer is known and allows more of them.
    pub open spec fn attempts_left(self, active: ActiveRunView) -> bool {
        self.timers.dom().contains(active.timer_id) && active.attempt
            < self.timers[active.timer_id].retry.max_attempts
    }

    /// Whether another attempt of a run that has failed waits for a worker: its timer is
    /// one for workers, and its attempts are not used up.
    pub open spec fn has_retry(self, active: ActiveRunView) -> bool {
        self.attempts_left(active) && self.timers[active.timer_id].target is WorkerTask
    }

    /// Whether the token of the timer of an active run can be raised, if a failure makes
    /// that necessary.
    pub open spec fn can_fail(self, run_id: Seq<char>) -> bool {
        let active = self.active_runs[run_id];
        self.has_retry(active) ==> self.token_of(active.timer_id) < u64::MAX
    }

    /// The server once another attempt of a run of a timer for workers waits for one, under
    /// a new token. The key of the attempt names the run of the schedule that it makes up
    /// for, or the reason.
    pub open spec fn retried(self, active: ActiveRunView, reason: Seq<char>) -> ClusterView {
        let timer = active.timer_id;
        let spec = self.timers[timer];
        let token = (self.token_of(timer) + 1) as u64;
        let key = match crate::state::found(self.next_runs, timer) {
            Some(at) => crate::timestamp::rfc3339_text(at.secs, at.nanos),
            None => reason,
        };
        let run = WorkerRunView {
            timer,
            tenant_id: spec.tenant_id,
            run_id: active.run_id,
            task: spec.target->task,
            payload: spec.target->payload,
            attempt: (active.attempt + 1) as u32,
            fencing_token: token,
            idempotency_key: timer + ":"@ + key,
        };
        ClusterView {
            pending: self.pending.push(run),
            fencing: self.fencing.insert(timer, token),
            ..self.with_state(timer, TimerState::Retrying)
        }
    }

    /// The server once a known worker has been heard of.
    pub open spec fn beating(
        self,
        worker_id: Seq<char>,
        lease_until: u64,
        now: TimeView,
    ) -> ClusterView {
        if self.workers.dom().contains(worker_id) {
            (ClusterView {
                workers: self.workers.insert(
                    worker_id,
                    WorkerInfoView { lease_until, ..self.workers[worker_id] },
                ),
                ..self
            }).noted(
                HistoryView {
                    worker_id: Some(worker_id),
                    ts: Some(now),
                    ..HistoryView::bare(HistoryKind::WorkerHeartbeat)
                },
            )
        } else {
            self
        }
    }

    /// The server once a worker is registered.
    pub open spec fn registered(
        self,
        worker_id: Seq<char>,
        tasks: Seq<Seq<char>>,
        lease_until: u64,
        now: TimeView,
    ) -> ClusterView {
        (ClusterView {
            workers: self.workers.insert(worker_id, WorkerInfoView { tasks, lease_until }),
            ..self
        }).noted(
            HistoryView {
                worker_id: Some(worker_id),
                ts: Some(now),
                ..HistoryView::bare(HistoryKind::WorkerRegistered)
            },
        )
    }

    /// Whether the node is a peer.
    pub open spec fn has_peer(self, node_id: Seq<char>) -> bool {
        exists|i: int|
            0 <= i < self.config.peers.len() && (#[trigger] self.config.peers[i]).node_id
                == node_id
    }

    /// The server with the node among its peers, unless it is the server itself or is one
    /// of them.
    pub open spec fn joined(self, node: NodeView) -> ClusterView {
        if node.node_id != self.config.node_id && !self.has_peer(node.node_id) {
            ClusterView {
                config: ConfigView { peers: self.config.peers.push(node), ..self.config },
                ..self
            }
        } else {
            self
        }
    }

    /// The server without the node among its peers.
    pub open spec fn left(self, node_id: Seq<char>) -> ClusterView {
        ClusterView {
            config: ConfigView { peers: without_node(self.config.peers, node_id), ..self.config },
            ..self
        }
    }

    /// What is shown of a timer.
    pub open spec fn summary(self, id: Seq<char>) -> Option<DistributedSummaryView> {
        if self.timers.dom().contains(id) {
            Some(
                DistributedSummaryView {
                    id,
                    tenant_id: self.timers[id].tenant_id,
                    state: crate::state::lookup(self.states, id, TimerState::Scheduled),
                    target: self.timers[id].target,
                    next_run_at: crate::state::found(self.next_runs, id),
                    last_status: crate::cluster::latest_kind(self.history, id),
                    fencing_token: self.token_of(id),
                },
            )
        } else {
            None
        }
    }

    /// What is shown of the timers, in the order of the given keys.
    pub open spec fn listed(self, keys: Seq<Seq<char>>) -> Seq<DistributedSummaryView>
        decreases keys.len(),
    {
        if keys.len() == 0 {
            Seq::empty()
        } else {
            let front = self.listed(keys.drop_last());
            match self.summary(keys.last()) {
                Some(summary) => front.push(summary),
                None => front,
            }
        }
    }

    /// The timers whose next run is due.
    pub open spec fn due(self, now: TimeView) -> spec_fn(Seq<char>) -> bool {
        |id: Seq<char>| self.next_runs[id].not_after(now)
    }

    /// The server once a run of a timer that is due waits for a worker, unless one does or
    /// is active already, or the timer is not one for workers.
    pub open spec fn enqueued(self, id: Seq<char>, run_id: Seq<char>) -> ClusterView {
        if self.is_pending(id) || self.is_active(id) || !self.timers.dom().contains(id) {
            self
        } else {
            let spec = self.timers[id];
            match spec.target {
                TargetView::WorkerTask { task, payload } => {
                    let token = (self.token_of(id) + 1) as u64;
                    let at = self.next_runs[id];
                    let run = WorkerRunView {
                        timer: id,
                        tenant_id: spec.tenant_id,
                        run_id,
                        task,
                        payload,
                        attempt: 1,
                        fencing_token: token,
                        idempotency_key: id + ":"@ + crate::timestamp::rfc3339_text(
                            at.secs,
                            at.nanos,
                        ),
                    };
                    ClusterView {
                        pending: self.pending.push(run),
                        fencing: self.fencing.insert(id, token),
                        ..self.with_state(id, TimerState::Scheduled)
                    }
                },
                _ => self,
            }
        }
    }

    /// The server once runs of the timers wait for a worker, under the given names.
    pub open spec fn enqueued_all(self, ids: Seq<Seq<char>>, names: Seq<Seq<char>>) -> ClusterView
        decreases ids.len(),
    {
        if ids.len() == 0 {
            self
        } else {
            self.enqueued_all(ids.drop_last(), names).enqueued(
                ids.last(),
                names[ids.len() - 1],
            )
        }
    }

    /// The server once a worker is given up.
    pub open spec fn lost(self, worker_id: Seq<char>, now: TimeView) -> ClusterView {
        (ClusterView { workers: self.workers.remove(worker_id), ..self }).noted(
            HistoryView {
                worker_id: Some(worker_id),
                ts: Some(now),
                ..HistoryView::bare(HistoryKind::WorkerLost)
            },
        )
    }

    /// The server once the workers are given up.
    pub open spec fn lost_all(self, ids: Seq<Seq<char>>, now: TimeView) -> ClusterView
        decreases ids.len(),
    {
        if ids.len() == 0 {
            self
        } else {
            self.lost_all(ids.drop_last(), now).lost(ids.last(), now)
        }
    }

    /// The workers that have not been heard of within their lease.
    pub open spec fn silent(self, tick: u64) -> spec_fn(Seq<char>) -> bool {
        |id: Seq<char>| self.workers[id].lease_until < tick
    }

    /// The active runs whose lease has expired or whose worker was given up.
    pub open spec fn abandoned(self, now: TimeView) -> spec_fn(Seq<char>) -> bool {
        |run: Seq<char>|
            self.active_runs[run].lease_deadline.not_after(now) || !self.workers.dom().contains(
                self.active_runs[run].worker_id,
            )
    }

    /// The server once an active run is taken from its worker. It waits for another
    /// worker, under a new token, unless its attempts are used up.
    pub open spec fn expired(self, run_id: Seq<char>, now: TimeView) -> ClusterView {
        if !self.active_runs.dom().contains(run_id) {
            self
        } else {
            let active = self.active_runs[run_id];
            let timer = active.timer_id;
            let released = self.released(run_id);
            if !self.timers.dom().contains(timer) {
                released
            } else {
                let spec = self.timers[timer];
                let told = released.noted(
                    ClusterView::run_entry(
                        HistoryKind::RunLeaseExpired,
                        timer,
                        active.run_id,
                        Some(active.worker_id),
                        Some(active.fencing_token),
                        now,
                    ),
                );
                if active.attempt >= spec.retry.max_attempts {
                    told.with_state(timer, TimerState::Dead).noted(
                        ClusterView::run_entry(
                            HistoryKind::RunDead,
                            timer,
                            active.run_id,
                            None,
                            None,
                            now,
                        ),
                    )
                } else {
                    if spec.target is WorkerTask {
                        told.retried(active, "lease-expired"@)
                    } else {
                        told
                    }
                }
            }
        }
    }

    /// The server once active runs are taken from their workers.
    pub open spec fn expired_all(self, runs: Seq<Seq<char>>, now: TimeView) -> ClusterView
        decreases runs.len(),
    {
        if runs.len() == 0 {
            self
        } else {
            self.expired_all(runs.drop_last(), now).expired(runs.last(), now)
        }
    }

    /// Whether the token of every timer can be raised.
    pub open spec fn tokens_can_grow(self) -> bool {
        self.tokens_can_grow_by(1)
    }

    /// Whether the token of every timer can be raised as often as given.
    pub open spec fn tokens_can_grow_by(self, n: int) -> bool {
        forall|id: Seq<char>| #[trigger]
            self.fencing.dom().contains(id) ==> self.fencing[id] + n <= u64::MAX
    }

    /// Whether the token of every timer whose run is taken from its worker can be raised.
    pub open spec fn can_expire_all(self, runs: Seq<Seq<char>>, now: TimeView) -> bool
        decreases runs.len(),
    {
        runs.len() == 0 || {
            let before = self.expired_all(runs.drop_last(), now);
            &&& self.can_expire_all(runs.drop_last(), now)
            &&& before.token_of(before.active_runs[runs.last()].timer_id) < u64::MAX
        }
    }

    /// What the commands make of the server, or why one of them cannot be applied.
    pub open spec fn replay(self, commands: Seq<CommandView>, now: TimeView, tick: u64) -> Result<
        ClusterView,
        KronErrorView,
    >
        decreases commands.len(),
    {
        if commands.len() == 0 {
            Ok(self)
        } else {
            match self.replay(commands.drop_last(), now, tick) {
                Ok(before) => before.apply(commands.last(), now, tick),
                Err(error) => Err(error),
            }
        }
    }

    /// Whether every command up to the first that fails can be applied.
    pub open spec fn can_replay(self, commands: Seq<CommandView>, now: TimeView, tick: u64) -> bool
        decreases commands.len(),
    {
        commands.len() == 0 || {
            &&& self.can_replay(commands.drop_last(), now, tick)
            &&& match self.replay(commands.drop_last(), now, tick) {
                Ok(before) => before.can_apply(commands.last(), now, tick),
                Err(_) => true,
            }
        }
    }

    /// The tasks that a worker may be given: those that it registered, or the ones it asks
    /// for if it is not registered.
    pub open spec fn allowed_tasks(self, worker_id: Seq<char>, tasks: Seq<Seq<char>>) -> Seq<
        Seq<char>,
    > {
        if self.workers.dom().contains(worker_id) {
            self.workers[worker_id].tasks
        } else {
            tasks
        }
    }

    /// Whether the worker can be given the run that waits at the position.
    pub open spec fn suits(self, worker_id: Seq<char>, tasks: Seq<Seq<char>>, i: int) -> bool {
        tasks.contains(self.pending[i].task) && self.allowed_tasks(worker_id, tasks).contains(
            self.pending[i].task,
        )
    }

    /// The command that claims the run that waits at the position.
    pub open spec fn claim(self, worker_id: Seq<char>, at: int, deadline: TimeView) -> CommandView {
        CommandView::ClaimRun {
            timer_id: self.pending[at].timer,
            run_id: self.pending[at].run_id,
            worker_id,
            fencing_token: self.pending[at].fencing_token,
            attempt: self.pending[at].attempt,
            lease_deadline: deadline,
        }
    }

    /// The server once the worker has claimed the run that waits at the position.
    pub open spec fn claimed(
        self,
        worker_id: Seq<char>,
        at: int,
        deadline: TimeView,
        now: TimeView,
    ) -> ClusterView {
        let run = self.pending[at];
        (ClusterView {
            pending: self.pending.remove(at),
            active_runs: self.active_runs.insert(
                run.run_id,
                ActiveRunView {
                    timer_id: run.timer,
                    run_id: run.run_id,
                    worker_id,
                    fencing_token: run.fencing_token,
                    attempt: run.attempt,
                    lease_deadline: deadline,
                },
            ),
            ..self.with_state(run.timer, TimerState::Running)
        }).noted(
            ClusterView::run_entry(
                HistoryKind::RunClaimed,
                run.timer,
                run.run_id,
                Some(worker_id),
                Some(run.fencing_token),
                now,
            ),
        )
    }
}

/// The nodes but those of the name.
pub open spec fn without_node(nodes: Seq<NodeView>, node_id: Seq<char>) -> Seq<NodeView>
    decreases nodes.len(),
{
    if nodes.len() == 0 {
        Seq::empty()
    } else {
        let front = without_node(nodes.drop_last(), node_id);
        if nodes.last().node_id != node_id {
            front.push(nodes.last())
        } else {
            front
        }
    }
}

fn history_of_run(
    kind: HistoryKind,
    timer: &str,
    run_id: &str,
    worker_id: Option<String>,
    fencing_token: Option<u64>,
    now: Timestamp,
) -> (r: HistoryEntry)
    ensures
        r@ == ClusterView::run_entry(
            kind,
            timer@,
            run_id@,
            worker_id.deep_view(),
            fencing_token,
            now@,
        ),
{
    HistoryEntry {
        kind,
        timer: Some(timer.to_owned()),
        tenant_id: None,
        run_id: Some(run_id.to_owned()),
        worker_id,
        fencing_token,
        error: None,
        ts: Some(now),
    }
}

impl ClusterState {
    /// A server that knows nothing yet.
    pub fn new(config: ClusterConfig) -> (r: Self)
        ensures
            r@ == ClusterView::initial(config@),
    {
        let leader = same(&config.leader_id, &config.node_id);
        let r = ClusterState {
            config,
            timers: StrMap::new(),
            states: StrMap::new(),
            next_runs: StrMap::new(),
            history: Vec::new(),
            workers: StrMap::new(),
            pending: Vec::new(),
            active_runs: StrMap::new(),
            fencing: StrMap::new(),
            leader,
            shutting_down: false,
        };
        assert(r@ =~= ClusterView::initial(config@));
        r
    }

    fn note(&mut self, entry: HistoryEntry)
        ensures
            final(self)@ == old(self)@.noted(entry@),
    {
        let ghost e = entry@;
        let ghost before = self.history.deep_view();
        self.history.push(entry);
        assert(self.history.deep_view() =~= before.push(e));
    }

    fn set_state(&mut self, timer: &str, state: TimerState)
        ensures
            final(self)@ == old(self)@.with_state(timer@, state),
    {
        self.states.insert(timer.to_owned(), state);
    }

    /// Computes the next run of a timer.
    fn reschedule_timer(&mut self, timer: &str, now: Timestamp)
        requires
            old(self)@.can_reschedule(timer@, now@),
        ensures
            final(self)@ == old(self)@.rescheduled(timer@, now@),
    {
        let next = match self.timers.get(timer) {
            None => {
                return;
            },
            Some(spec) => spec.schedule.next_run_after(now, &spec.timezone),
        };
        match next {
            Ok(Some(at)) => {
                self.next_runs.insert(timer.to_owned(), at);
            },
            _ => {
                self.next_runs.remove(timer);
            },
        }
    }

    /// Takes up a new or changed timer.
    pub fn apply_create_timer(&mut self, spec: DistributedTimerSpec, now: Timestamp) -> (r: Result<
        (),
        KronError,
    >)
        requires
            spec@.schedule.can_run_after(now@, spec@.timezone),
        ensures
            match r {
                Ok(_) => old(self)@.created(spec@, now@) == Ok::<_, KronErrorView>(final(self)@),
                Err(error) => final(self)@ == old(self)@ && old(self)@.created(spec@, now@)
                    == Err::<ClusterView, _>(error@),
            },
    {
        let next = match spec.schedule.next_run_after(now, &spec.timezone) {
            Ok(next) => next,
            Err(error) => {
                return Err(error);
            },
        };
        let id = spec.id.clone();
        self.timers.insert(id.0.clone(), spec);
        self.states.insert(id.0.clone(), TimerState::Scheduled);
        if let Some(at) = next {
            self.next_runs.insert(id.0.clone(), at);
        }
        let mut entry = HistoryEntry::bare(HistoryKind::TimerCreated);
        entry.timer = Some(id.0);
        entry.ts = Some(now);
        self.note(entry);
        Ok(())
    }

    /// Whether a run of the timer is active.
    fn is_active(&self, timer: &str) -> (r: bool)
        ensures
            r == self@.is_active(timer@),
    {
        let n: usize = self.active_runs.len();
        let ghost order = self.active_runs.order();
        let mut i: usize = 0;
        while i < n
            invariant
                n == order.len(),
                order == self.active_runs.order(),
                i <= n,
                forall|run: Seq<char>| #[trigger]
                    self@.active_runs.dom().contains(run) <==> order.contains(run),
                forall|k: int|
                    0 <= k < i ==> self@.active_runs[#[trigger] order[k]].timer_id != timer@,
            decreases n - i,
        {
            let run = self.active_runs.value_at(i);
            if same(run.timer_id.as_str(), timer) {
                assert(self@.active_runs.dom().contains(order[i as int]));
                return true;
            }
            i = i + 1;
        }
        proof {
            if self@.is_active(timer@) {
                let run = choose|run: Seq<char>| #[trigger]
                    self@.active_runs.dom().contains(run) && self@.active_runs[run].timer_id
                        == timer@;
                assert(order.contains(run));
                assert(order[order.index_of(run)] == run);
            }
        }
        false
    }

    /// Whether a run of the timer waits for a worker.
    fn is_pending(&self, timer: &str) -> (r: bool)
        ensures
            r == self@.is_pending(timer@),
    {
        let mut i: usize = 0;
        while i < self.pending.len()
            invariant
                i <= self.pending@.len(),
                forall|k: int| 0 <= k < i ==> (#[trigger] self@.pending[k]).timer != timer@,
            decreases self.pending@.len() - i,
        {
            assert(self@.pending[i as int] == self.pending@[i as int]@);
            if same(&self.pending[i].timer, timer) {
                return true;
            }
            i = i + 1;
        }
        false
    }

    /// The active run of the name, if the worker may end it; if not, the reason.
    pub fn validate_active_run(&self, run_id: &str, worker_id: &str, fencing_token: u64) -> (r:
        Result<PersistedActiveRun, KronError>)
        ensures
            match r {
                Ok(active) => self@.refusal(run_id@, worker_id@, fencing_token) is None
                    && self@.active_runs[run_id@] == active@,
                Err(error) => self@.refusal(run_id@, worker_id@, fencing_token) == Some(error@),
            },
    {
        match self.active_runs.get(run_id) {
            None => Err(KronError::IpcUnavailable("run not active".to_string())),
            Some(active) => if !same(&active.worker_id, worker_id) {
                Err(KronError::IpcUnavailable("worker is not run owner".to_string()))
            } else if active.fencing_token != fencing_token {
                Err(KronError::IpcUnavailable("stale fencing token".to_string()))
            } else {
                Ok(active.clone())
            },
        }
    }

    fn finish_completed(&mut self, run_id: &str, worker_id: Option<String>, now: Timestamp)
        requires
            old(self)@.active_runs.dom().contains(run_id@),
            old(self)@.can_reschedule(old(self)@.active_runs[run_id@].timer_id, now@),
        ensures
            final(self)@ == old(self)@.completed(run_id@, worker_id.deep_view(), now@),
    {
        if let Some(active) = self.active_runs.remove(run_id) {
            let timer = active.timer_id;
            self.set_state(timer.as_str(), TimerState::Scheduled);
            let entry = history_of_run(
                HistoryKind::RunSucceeded,
                timer.as_str(),
                run_id,
                worker_id,
                Some(active.fencing_token),
                now,
            );
            self.note(entry);
            self.reschedule_timer(timer.as_str(), now);
        }
    }

    fn finish_failed(
        &mut self,
        run_id: &str,
        worker_id: Option<String>,
        error: &String,
        now: Timestamp,
    )
        requires
            old(self)@.active_runs.dom().contains(run_id@),
            old(self)@.can_fail(run_id@),
        ensures
            final(self)@ == old(self)@.failed(run_id@, worker_id.deep_view(), error@, now@),
    {
        if let Some(active) = self.active_runs.remove(run_id) {
            let again = self.retries(&active);
            let left = self.may_retry(&active);
            let timer = active.timer_id;
            let mut entry = history_of_run(
                HistoryKind::RunFailed,
                timer.as_str(),
                run_id,
                worker_id,
                Some(active.fencing_token),
                now,
            );
            entry.error = Some(error.clone());
            self.note(entry);
            if again {
                self.requeue(timer, active.run_id, active.attempt, "failed");
            } else if left {
                self.set_state(timer.as_str(), TimerState::Scheduled);
            } else {
                self.set_state(timer.as_str(), TimerState::Dead);
            }
        }
    }

    /// Whether a run has attempts left.
    fn may_retry(&self, active: &PersistedActiveRun) -> (r: bool)
        ensures
            r == self@.attempts_left(active@),
    {
        match self.timers.get(active.timer_id.as_str()) {
            Some(spec) => active.attempt < spec.retry.max_attempts,
            None => false,
        }
    }

    /// Whether another attempt of a run that has failed waits for a worker.
    fn retries(&self, active: &PersistedActiveRun) -> (r: bool)
        ensures
            r == self@.has_retry(active@),
    {
        match self.timers.get(active.timer_id.as_str()) {
            Some(spec) => active.attempt < spec.retry.max_attempts && matches!(
                spec.target,
                TimerTarget::WorkerTask { .. }
            ),
            None => false,
        }
    }

    /// Whether the token of the timer of a run can be raised, if a failure of the run makes
    /// that necessary.
    pub fn failure_fits(&self, run_id: &str) -> (r: bool)
        ensures
            r == (self@.active_runs.dom().contains(run_id@) ==> self@.can_fail(run_id@)),
    {
        match self.active_runs.get(run_id) {
            Some(active) => !self.retries(active) || self.token_of(active.timer_id.as_str())
                < u64::MAX,
            None => true,
        }
    }

    fn beat(&mut self, worker_id: &str, lease_until: u64, now: Timestamp)
        ensures
            final(self)@ == old(self)@.beating(worker_id@, lease_until, now@),
    {
        if let Some(mut worker) = self.workers.remove(worker_id) {
            worker.lease_until = lease_until;
            self.workers.insert(worker_id.to_owned(), worker);
            let mut entry = HistoryEntry::bare(HistoryKind::WorkerHeartbeat);
            entry.worker_id = Some(worker_id.to_owned());
            entry.ts = Some(now);
            self.note(entry);
            assert(self@ =~= old(self)@.beating(worker_id@, lease_until, now@));
        } else {
            assert(self@ =~= old(self)@);
        }
    }

    fn enrol(&mut self, worker_id: &str, tasks: Vec<String>, lease_until: u64, now: Timestamp)
        ensures
            final(self)@ == old(self)@.registered(
                worker_id@,
                tasks.deep_view(),
                lease_until,
                now@,
            ),
    {
        self.workers.insert(worker_id.to_owned(), WorkerInfo { tasks, lease_until });
        let mut entry = HistoryEntry::bare(HistoryKind::WorkerRegistered);
        entry.worker_id = Some(worker_id.to_owned());
        entry.ts = Some(now);
        self.note(entry);
    }

    /// Whether the node is a peer.
    fn has_peer(&self, node_id: &str) -> (r: bool)
        ensures
            r == self@.has_peer(node_id@),
    {
        let mut i: usize = 0;
        while i < self.config.peers.len()
            invariant
                i <= self.config.peers@.len(),
                forall|k: int|
                    0 <= k < i ==> (#[trigger] self@.config.peers[k]).node_id != node_id@,
            decreases self.config.peers@.len() - i,
        {
            assert(self@.config.peers[i as int] == self.config.peers@[i as int]@);
            if same(&self.config.peers[i].node_id, node_id) {
                return true;
            }
            i = i + 1;
        }
        false
    }

    fn add_peer(&mut self, node: &NodeInfo)
        ensures
            final(self)@ == old(self)@.joined(node@),
    {
        if !same(&node.node_id, &self.config.node_id) && !self.has_peer(&node.node_id) {
            let ghost before = self.config.peers.deep_view();
            self.config.peers.push(node.clone());
            assert(self.config.peers.deep_view() =~= before.push(node@));
        }
    }

    fn remove_peer(&mut self, node_id: &str)
        ensures
            final(self)@ == old(self)@.left(node_id@),
    {
        let ghost all = self.config.peers.deep_view();
        let mut kept: Vec<NodeInfo> = Vec::new();
        let mut i: usize = 0;
        assert(all.take(0) =~= Seq::<NodeView>::empty());
        assert(kept.deep_view() =~= without_node(all.take(0), node_id@));
        while i < self.config.peers.len()
            invariant
                i <= self.config.peers@.len(),
                all == self.config.peers.deep_view(),
                self@ == old(self)@,
                kept.deep_view() == without_node(all.take(i as int), node_id@),
            decreases self.config.peers@.len() - i,
        {
            let ghost front = kept.deep_view();
            proof {
                assert(all.take(i + 1).drop_last() =~= all.take(i as int));
                assert(all.take(i + 1).last() == self.config.peers@[i as int]@);
            }
            if !same(&self.config.peers[i].node_id, node_id) {
                kept.push(self.config.peers[i].clone());
                assert(kept.deep_view() =~= front.push(self.config.peers@[i as int]@));
            }
            i = i + 1;
        }
        assert(all.take(all.len() as int) =~= all);
        self.config.peers = kept;
    }

    /// Whether the next runs that the command makes necessary can be computed, the token of
    /// a timer that it tries again can be raised, and the lease that it grants ends within
    /// the range of the clock.
    pub fn apply_fits(&self, command: &RaftCommand, now: Timestamp, tick: u64) -> (r: bool)
        ensures
            r == self@.can_apply(command@, now@, tick),
    {
        let lease_fits = tick <= u64::MAX - LEASE_SECONDS * 1000;
        match command {
            RaftCommand::CreateTimer { spec, .. } => spec.schedule.fits(now, &spec.timezone),
            RaftCommand::UpdateTimer { spec, .. } => spec.schedule.fits(now, &spec.timezone),
            RaftCommand::ResumeTimer { timer_id, .. } => self.reschedule_fits(
                timer_id.as_str(),
                now,
            ),
            RaftCommand::CompleteRun { run_id, worker_id, fencing_token, .. } => {
                match self.validate_active_run(&run_id.0, worker_id, *fencing_token) {
                    Ok(active) => self.reschedule_fits(active.timer_id.as_str(), now),
                    Err(_) => true,
                }
            },
            RaftCommand::FailRun { run_id, worker_id, fencing_token, .. } => {
                match self.validate_active_run(&run_id.0, worker_id, *fencing_token) {
                    Ok(_) => self.failure_fits(&run_id.0),
                    Err(_) => true,
                }
            },
            RaftCommand::HeartbeatWorker { .. } => lease_fits,
            RaftCommand::RegisterWorker { .. } => lease_fits,
            _ => true,
        }
    }

    /// Whether the next run of a timer can be computed.
    pub fn reschedule_fits(&self, timer: &str, now: Timestamp) -> (r: bool)
        ensures
            r == self@.can_reschedule(timer@, now@),
    {
        match self.timers.get(timer) {
            Some(spec) => spec.schedule.fits(now, &spec.timezone),
            None => true,
        }
    }

    /// Applies a command, at the time of day `now` and the time `tick` of the clock that
    /// only goes forward.
    pub fn apply_command(&mut self, command: &RaftCommand, now: Timestamp, tick: u64) -> (r: Result<
        (),
        KronError,
    >)
        requires
            old(self)@.can_apply(command@, now@, tick),
        ensures
            match r {
                Ok(_) => old(self)@.apply(command@, now@, tick) == Ok::<_, KronErrorView>(
                    final(self)@,
                ),
                Err(error) => final(self)@ == old(self)@ && old(self)@.apply(command@, now@, tick)
                    == Err::<ClusterView, _>(error@),
            },
    {
        match command {
            RaftCommand::CreateTimer { spec, .. } => {
                return self.apply_create_timer(spec.clone(), now);
            },
            RaftCommand::UpdateTimer { spec, .. } => {
                return self.apply_create_timer(spec.clone(), now);
            },
            RaftCommand::CancelTimer { timer_id } => {
                self.set_state(timer_id.as_str(), TimerState::Cancelled);
                self.next_runs.remove(timer_id.as_str());
            },
            RaftCommand::PauseTimer { timer_id } => {
                self.set_state(timer_id.as_str(), TimerState::Paused);
                self.next_runs.remove(timer_id.as_str());
            },
            RaftCommand::ResumeTimer { timer_id, .. } => {
                self.set_state(timer_id.as_str(), TimerState::Scheduled);
                self.reschedule_timer(timer_id.as_str(), now);
            },
            RaftCommand::ClaimRun {
                timer_id,
                run_id,
                worker_id,
                fencing_token,
                attempt,
                lease_deadline,
            } => {
                if !self.is_active(timer_id.as_str()) {
                    self.active_runs.insert(
                        run_id.0.clone(),
                        PersistedActiveRun {
                            timer_id: timer_id.clone(),
                            run_id: run_id.clone(),
                            worker_id: worker_id.clone(),
                            fencing_token: *fencing_token,
                            attempt: *attempt,
                            lease_deadline: *lease_deadline,
                        },
                    );
                    self.set_state(timer_id.as_str(), TimerState::Running);
                    self.fencing.insert(timer_id.0.clone(), *fencing_token);
                    let entry = history_of_run(
                        HistoryKind::RunClaimed,
                        timer_id.as_str(),
                        &run_id.0,
                        Some(worker_id.clone()),
                        Some(*fencing_token),
                        now,
                    );
                    self.note(entry);
                }
            },
            RaftCommand::CompleteRun { run_id, worker_id, fencing_token, .. } => {
                if self.validate_active_run(&run_id.0, worker_id, *fencing_token).is_ok() {
                    self.finish_completed(&run_id.0, Some(worker_id.clone()), now);
                }
            },
            RaftCommand::FailRun { run_id, worker_id, fencing_token, error, .. } => {
                if self.validate_active_run(&run_id.0, worker_id, *fencing_token).is_ok() {
                    self.finish_failed(&run_id.0, Some(worker_id.clone()), error, now);
                }
            },
            RaftCommand::ExpireRunLease { .. } => {},
            RaftCommand::HeartbeatWorker { worker_id, .. } => {
                self.beat(worker_id, tick + LEASE_SECONDS * 1000, now);
            },
            RaftCommand::RegisterWorker { worker_id, tasks, .. } => {
                self.enrol(worker_id, copy_texts(tasks), tick + LEASE_SECONDS * 1000, now);
            },
            RaftCommand::UnregisterWorker { worker_id } => {
                self.workers.remove(worker_id);
            },
            RaftCommand::AddNode { node } => {
                self.add_peer(node);
            },
            RaftCommand::RemoveNode { node_id } => {
                self.remove_peer(node_id);
            },
        }
        Ok(())
    }

    /// What is shown of a timer.
    pub fn summary_for(&self, id: &str) -> (r: Option<DistributedSummary>)
        ensures
            r.deep_view() == self@.summary(id@),
    {
        match self.timers.get(id) {
            None => None,
            Some(spec) => {
                let state = match self.states.get(id) {
                    Some(state) => *state,
                    None => TimerState::Scheduled,
                };
                let next_run_at = match self.next_runs.get(id) {
                    Some(at) => Some(*at),
                    None => None,
                };
                let fencing_token: u64 = match self.fencing.get(id) {
                    Some(token) => *token,
                    None => 0,
                };
                Some(
                    DistributedSummary {
                        id: id.to_owned(),
                        tenant_id: copy_option(&spec.tenant_id),
                        state,
                        target: spec.target.clone(),
                        next_run_at,
                        last_status: last_status(&self.history, id),
                        fencing_token,
                    },
                )
            },
        }
    }
}

/// Whether every text is the name of a run.
pub open spec fn run_names(names: Seq<Seq<char>>) -> bool {
    forall|i: int| 0 <= i < names.len() ==> is_run_name(#[trigger] names[i])
}

/// Whether the text is the name of a run.
pub open spec fn is_run_name(name: Seq<char>) -> bool {
    exists|ulid: Seq<char>| #[trigger]
        crate::timer::is_ulid(ulid) && name == "run_"@ + crate::text::lowered(ulid)
}

impl ClusterState {
    /// The timers whose next run is due, in the order of their names.
    pub fn due_timers(&self, now: Timestamp) -> (r: Vec<String>)
        ensures
            r.deep_view() == keys_where(self.next_runs.order(), self@.due(now@)),
            crate::strmap::sorted(self.next_runs.order()),
            forall|k: Seq<char>| #[trigger]
                self@.next_runs.dom().contains(k) <==> self.next_runs.order().contains(k),
    {
        let n: usize = self.next_runs.len();
        let ghost order = self.next_runs.order();
        let ghost wanted = self@.due(now@);
        let mut out: Vec<String> = Vec::new();
        let mut i: usize = 0;
        assert(order.take(0) =~= Seq::<Seq<char>>::empty());
        assert(out.deep_view() =~= keys_where(order.take(0), wanted));
        while i < n
            invariant
                i <= n == order.len(),
                order == self.next_runs.order(),
                wanted == self@.due(now@),
                out.deep_view() == keys_where(order.take(i as int), wanted),
            decreases n - i,
        {
            let ghost front = out.deep_view();
            proof {
                assert(order.take(i + 1).drop_last() =~= order.take(i as int));
                assert(order.take(i + 1).last() == order[i as int]);
            }
            if self.next_runs.value_at(i).not_after(&now) {
                out.push(self.next_runs.key_at(i).clone());
                assert(out.deep_view() =~= front.push(order[i as int]));
            }
            i = i + 1;
        }
        assert(order.take(n as int) =~= order);
        out
    }

    /// The workers that have not been heard of within their lease, in the order of their
    /// names.
    pub fn silent_workers(&self, tick: u64) -> (r: Vec<String>)
        ensures
            r.deep_view() == keys_where(self.workers.order(), self@.silent(tick)),
            crate::strmap::sorted(self.workers.order()),
            forall|k: Seq<char>| #[trigger]
                self@.workers.dom().contains(k) <==> self.workers.order().contains(k),
    {
        let n: usize = self.workers.len();
        let ghost order = self.workers.order();
        let ghost wanted = self@.silent(tick);
        let mut out: Vec<String> = Vec::new();
        let mut i: usize = 0;
        assert(order.take(0) =~= Seq::<Seq<char>>::empty());
        assert(out.deep_view() =~= keys_where(order.take(0), wanted));
        while i < n
            invariant
                i <= n == order.len(),
                order == self.workers.order(),
                wanted == self@.silent(tick),
                out.deep_view() == keys_where(order.take(i as int), wanted),
            decreases n - i,
        {
            let ghost front = out.deep_view();
            proof {
                assert(order.take(i + 1).drop_last() =~= order.take(i as int));
                assert(order.take(i + 1).last() == order[i as int]);
            }
            if self.workers.value_at(i).lease_until < tick {
                out.push(self.workers.key_at(i).clone());
                assert(out.deep_view() =~= front.push(order[i as int]));
            }
            i = i + 1;
        }
        assert(order.take(n as int) =~= order);
        out
    }

    /// The active runs whose lease has expired or whose worker was given up, in the order
    /// of their names.
    pub fn abandoned_runs(&self, now: Timestamp) -> (r: Vec<String>)
        ensures
            r.deep_view() == keys_where(self.active_runs.order(), self@.abandoned(now@)),
            crate::strmap::sorted(self.active_runs.order()),
            forall|k: Seq<char>| #[trigger]
                self@.active_runs.dom().contains(k) <==> self.active_runs.order().contains(k),
    {
        let n: usize = self.active_runs.len();
        let ghost order = self.active_runs.order();
        let ghost wanted = self@.abandoned(now@);
        let mut out: Vec<String> = Vec::new();
        let mut i: usize = 0;
        assert(order.take(0) =~= Seq::<Seq<char>>::empty());
        assert(out.deep_view() =~= keys_where(order.take(0), wanted));
        while i < n
            invariant
                i <= n == order.len(),
                order == self.active_runs.order(),
                wanted == self@.abandoned(now@),
                out.deep_view() == keys_where(order.take(i as int), wanted),
            decreases n - i,
        {
            let ghost front = out.deep_view();
            proof {
                assert(order.take(i + 1).drop_last() =~= order.take(i as int));
                assert(order.take(i + 1).last() == order[i as int]);
            }
            let run = self.active_runs.value_at(i);
            if run.lease_deadline.not_after(&now) || !self.workers.contains(&run.worker_id) {
                out.push(self.active_runs.key_at(i).clone());
                assert(out.deep_view() =~= front.push(order[i as int]));
            }
            i = i + 1;
        }
        assert(order.take(n as int) =~= order);
        out
    }

    /// The token of a timer.
    fn token_of(&self, timer: &str) -> (r: u64)
        ensures
            r == self@.token_of(timer@),
    {
        match self.fencing.get(timer) {
            Some(token) => *token,
            None => 0,
        }
    }

    /// The task and the payload of a timer that is one for workers, with the tenant and
    /// the number of attempts.
    fn worker_task(&self, timer: &str) -> (r: Option<(String, String, Option<String>)>)
        ensures
            match r {
                Some((task, payload, tenant_id)) => {
                    &&& self@.timers.dom().contains(timer@)
                    &&& self@.timers[timer@].target == (TargetView::WorkerTask {
                        task: task@,
                        payload: payload@,
                    })
                    &&& self@.timers[timer@].tenant_id == tenant_id.deep_view()
                },
                None => !self@.timers.dom().contains(timer@) || !(self@.timers[timer@].target is WorkerTask),
            },
    {
        match self.timers.get(timer) {
            None => None,
            Some(spec) => match &spec.target {
                TimerTarget::WorkerTask { task, payload } => Some(
                    (task.clone(), payload.clone(), copy_option(&spec.tenant_id)),
                ),
                _ => None,
            },
        }
    }

    /// Lets a run of a timer that is due wait for a worker, unless one does or is active
    /// already, or the timer is not one for workers.
    fn enqueue(&mut self, id: &str, run_id: &str)
        requires
            old(self)@.next_runs.dom().contains(id@),
            old(self)@.token_of(id@) < u64::MAX,
        ensures
            final(self)@ == old(self)@.enqueued(id@, run_id@),
    {
        if self.is_pending(id) || self.is_active(id) {
            return;
        }
        if let Some((task, payload, tenant_id)) = self.worker_task(id) {
            let at = match self.next_runs.get(id) {
                Some(at) => to_rfc3339(*at),
                None => String::new(),
            };
            let token: u64 = self.token_of(id) + 1;
            self.fencing.insert(id.to_owned(), token);
            let run = WorkerRun {
                timer: id.to_owned(),
                tenant_id,
                run_id: run_id.to_owned(),
                task,
                payload,
                attempt: 1,
                fencing_token: token,
                idempotency_key: concat3(id, ":", &at),
            };
            let ghost before = self.pending.deep_view();
            let ghost added = run@;
            self.pending.push(run);
            assert(self.pending.deep_view() =~= before.push(added));
            self.set_state(id, TimerState::Scheduled);
        }
    }

    /// Lets runs of the timers that are due wait for a worker, under the given names.
    pub fn enqueue_due_with(&mut self, now: Timestamp, names: &Vec<String>)
        requires
            old(self)@.tokens_can_grow(),
            keys_where(old(self).next_runs.order(), old(self)@.due(now@)).len() <= names@.len(),
        ensures
            final(self)@ == old(self)@.enqueued_all(
                keys_where(old(self).next_runs.order(), old(self)@.due(now@)),
                names.deep_view(),
            ),
    {
        let due = self.due_timers(now);
        let ghost ids = due.deep_view();
        let ghost all = names.deep_view();
        let ghost start = self@;
        proof {
            crate::strmap::sorted_is_distinct(self.next_runs.order());
            keys_where_are_keys(self.next_runs.order(), self@.due(now@));
        }
        let mut i: usize = 0;
        assert(ids.take(0) =~= Seq::<Seq<char>>::empty());
        while i < due.len()
            invariant
                i <= due@.len() <= names@.len(),
                ids == due.deep_view(),
                all == names.deep_view(),
                start.tokens_can_grow(),
                ids.no_duplicates(),
                forall|k: int| 0 <= k < ids.len() ==> start.next_runs.dom().contains(#[trigger] ids[k]),
                self@ == start.enqueued_all(ids.take(i as int), all),
                self@.next_runs == start.next_runs,
                forall|k: int|
                    i <= k < ids.len() ==> self@.token_of(#[trigger] ids[k]) == start.token_of(ids[k]),
            decreases due@.len() - i,
        {
            proof {
                assert(ids.take(i + 1).drop_last() =~= ids.take(i as int));
                assert(ids.take(i + 1).last() == ids[i as int]);
                assert(ids[i as int] == due@[i as int]@);
                assert(all[i as int] == names@[i as int]@);
                assert(start.next_runs.dom().contains(ids[i as int]));
            }
            let ghost before = self@;
            self.enqueue(&due[i], &names[i]);
            proof {
                assert forall|k: int| i + 1 <= k < ids.len() implies self@.token_of(
                    #[trigger] ids[k],
                ) == start.token_of(ids[k]) by {
                    assert(ids[k] != ids[i as int]);
                }
            }
            i = i + 1;
        }
        assert(ids.take(ids.len() as int) =~= ids);
    }

    /// Lets runs of the timers that are due wait for a worker, each under a fresh name. A
    /// server that does not lead leaves that to the leader.
    pub fn enqueue_due_runs(&mut self, now: Timestamp)
        requires
            old(self)@.tokens_can_grow(),
        ensures
            old(self)@.leader ==> exists|names: Seq<Seq<char>>| #[trigger]
                run_names(names) && final(self)@ == old(self)@.enqueued_all(
                    keys_where(old(self).next_runs.order(), old(self)@.due(now@)),
                    names,
                ),
            !old(self)@.leader ==> final(self)@ == old(self)@,
    {
        if !self.leader {
            return;
        }
        let due = self.due_timers(now);
        let n: usize = due.len();
        let mut names: Vec<String> = Vec::new();
        while names.len() < n
            invariant
                names@.len() <= n,
                run_names(names.deep_view()),
            decreases n - names@.len(),
        {
            let ghost before = names.deep_view();
            let id = RunId::new();
            assert(is_run_name(id@));
            names.push(id.0);
            assert(names.deep_view() =~= before.push(id@));
        }
        assert(keys_where(self.next_runs.order(), self@.due(now@)).len() == n);
        self.enqueue_due_with(now, &names);
    }

    /// Lets another attempt of a run wait for a worker, if its timer is one for workers.
    fn requeue(&mut self, timer: TimerId, run_id: RunId, attempt: u32, reason: &str)
        requires
            old(self)@.timers.dom().contains(timer@),
            old(self)@.timers[timer@].target is WorkerTask ==> old(self)@.token_of(timer@)
                < u64::MAX,
            attempt < u32::MAX,
        ensures
            !(old(self)@.timers[timer@].target is WorkerTask) ==> final(self)@ == old(self)@,
            old(self)@.timers[timer@].target is WorkerTask ==> forall|active: ActiveRunView|
                active.timer_id == timer@ && active.run_id == run_id@ && active.attempt == attempt
                    ==> final(self)@ == #[trigger] old(self)@.retried(active, reason@),
    {
        if let Some((task, payload, tenant_id)) = self.worker_task(timer.as_str()) {
            let key = match self.next_runs.get(timer.as_str()) {
                Some(at) => to_rfc3339(*at),
                None => reason.to_owned(),
            };
            let token: u64 = self.token_of(timer.as_str()) + 1;
            self.fencing.insert(timer.0.clone(), token);
            let run = WorkerRun {
                timer: timer.0.clone(),
                tenant_id,
                run_id: run_id.0,
                task,
                payload,
                attempt: attempt + 1,
                fencing_token: token,
                idempotency_key: concat3(timer.as_str(), ":", &key),
            };
            let ghost before = self.pending.deep_view();
            let ghost added = run@;
            self.pending.push(run);
            assert(self.pending.deep_view() =~= before.push(added));
            self.set_state(timer.as_str(), TimerState::Retrying);
        }
    }

    /// Takes an active run from its worker.
    fn expire_run(&mut self, run_id: &str, now: Timestamp)
        requires
            old(self)@.token_of(old(self)@.active_runs[run_id@].timer_id) < u64::MAX,
        ensures
            final(self)@ == old(self)@.expired(run_id@, now@),
    {
        let active = match self.active_runs.remove(run_id) {
            None => {
                assert(self@ =~= old(self)@);
                return;
            },
            Some(active) => active,
        };
        let timer = active.timer_id;
        let max_attempts: u32 = match self.timers.get(timer.as_str()) {
            None => {
                return;
            },
            Some(spec) => spec.retry.max_attempts,
        };
        let entry = history_of_run(
            HistoryKind::RunLeaseExpired,
            timer.as_str(),
            &active.run_id.0,
            Some(active.worker_id),
            Some(active.fencing_token),
            now,
        );
        self.note(entry);
        if active.attempt >= max_attempts {
            self.set_state(timer.as_str(), TimerState::Dead);
            let entry = history_of_run(
                HistoryKind::RunDead,
                timer.as_str(),
                &active.run_id.0,
                None,
                None,
                now,
            );
            self.note(entry);
            return;
        }
        self.requeue(timer, active.run_id, active.attempt, "lease-expired");
    }

    /// Gives up the workers that have not been heard of within their lease.
    fn lose_workers(&mut self, now: Timestamp, tick: u64)
        ensures
            final(self)@ == old(self)@.lost_all(
                keys_where(old(self).workers.order(), old(self)@.silent(tick)),
                now@,
            ),
            final(self).active_runs.order() == old(self).active_runs.order(),
    {
        let lost = self.silent_workers(tick);
        let ghost ids = lost.deep_view();
        let ghost start = self@;
        let ghost order = self.active_runs.order();
        let mut i: usize = 0;
        assert(ids.take(0) =~= Seq::<Seq<char>>::empty());
        while i < lost.len()
            invariant
                i <= lost@.len(),
                ids == lost.deep_view(),
                self@ == start.lost_all(ids.take(i as int), now@),
                self.active_runs.order() == order,
            decreases lost@.len() - i,
        {
            proof {
                assert(ids.take(i + 1).drop_last() =~= ids.take(i as int));
                assert(ids.take(i + 1).last() == lost@[i as int]@);
            }
            self.workers.remove(&lost[i]);
            let mut entry = HistoryEntry::bare(HistoryKind::WorkerLost);
            entry.worker_id = Some(lost[i].clone());
            entry.ts = Some(now);
            let ghost before = self.history.deep_view();
            let ghost added = entry@;
            self.history.push(entry);
            assert(self.history.deep_view() =~= before.push(added));
            i = i + 1;
        }
        assert(ids.take(ids.len() as int) =~= ids);
    }

    /// The server once the workers are given up that have not been heard of within their
    /// lease.
    pub open spec fn left(&self, now: TimeView, tick: u64) -> ClusterView {
        self@.lost_all(keys_where(self.workers.order(), self@.silent(tick)), now)
    }

    /// The runs that are taken from their workers once those workers are given up.
    pub open spec fn to_expire(&self, now: TimeView, tick: u64) -> Seq<Seq<char>> {
        keys_where(self.active_runs.order(), self.left(now, tick).abandoned(now))
    }

    /// Whether every token can be raised as often as given.
    pub fn tokens_fit(&self, n: u64) -> (r: bool)
        ensures
            r == self@.tokens_can_grow_by(n as int),
    {
        let mut i: usize = 0;
        while i < self.fencing.len()
            invariant
                i <= self.fencing.order().len(),
                forall|k: int|
                    0 <= k < i ==> self@.fencing[#[trigger] self.fencing.order()[k]] + n
                        <= u64::MAX,
            decreases self.fencing.order().len() - i,
        {
            if *self.fencing.value_at(i) > u64::MAX - n {
                proof {
                    let id = self.fencing.order()[i as int];
                    assert(self@.fencing.dom().contains(id));
                }
                return false;
            }
            i = i + 1;
        }
        assert forall|id: Seq<char>| #[trigger] self@.fencing.dom().contains(id) implies
            self@.fencing[id] + n <= u64::MAX by {
            assert(self.fencing.order().contains(id));
        }
        true
    }

    /// Whether the tokens are small enough for all active runs to be taken from their
    /// workers. They are unless one is close to the largest number.
    pub fn expiry_fits(&self, now: Timestamp, tick: u64) -> (r: bool)
        ensures
            r == self@.tokens_can_grow_by(self.active_runs.order().len() as int),
            r ==> self.left(now@, tick).can_expire_all(self.to_expire(now@, tick), now@),
    {
        let runs: usize = self.active_runs.len();
        let fits = self.tokens_fit(runs as u64);
        proof {
            if fits {
                let left = self.left(now@, tick);
                lost_workers_keep_tokens(
                    self@,
                    keys_where(self.workers.order(), self@.silent(tick)),
                    now@,
                );
                keys_where_are_few(self.active_runs.order(), left.abandoned(now@));
                tokens_grow_by_one(left, self.to_expire(now@, tick), now@, runs as int);
            }
        }
        fits
    }

    /// Gives up the workers that have not been heard of within their lease, and takes
    /// from their workers the runs whose lease has expired or whose worker was given up.
    pub fn expire_workers(&mut self, now: Timestamp, tick: u64)
        requires
            old(self).left(now@, tick).can_expire_all(old(self).to_expire(now@, tick), now@),
        ensures
            final(self)@ == old(self).left(now@, tick).expired_all(
                old(self).to_expire(now@, tick),
                now@,
            ),
    {
        self.lose_workers(now, tick);
        let runs = self.abandoned_runs(now);
        let ghost ids = runs.deep_view();
        let ghost start = self@;
        let mut i: usize = 0;
        assert(ids.take(0) =~= Seq::<Seq<char>>::empty());
        while i < runs.len()
            invariant
                i <= runs@.len(),
                ids == runs.deep_view(),
                start.can_expire_all(ids, now@),
                self@ == start.expired_all(ids.take(i as int), now@),
            decreases runs@.len() - i,
        {
            proof {
                assert(ids.take(i + 1).drop_last() =~= ids.take(i as int));
                assert(ids.take(i + 1).last() == runs@[i as int]@);
                can_expire_first(start, ids, now@, i + 1);
            }
            self.expire_run(&runs[i], now);
            i = i + 1;
        }
        assert(ids.take(ids.len() as int) =~= ids);
    }

    /// The position of the first run that waits and that the worker can be given.
    fn first_suitable(&self, worker_id: &str, tasks: &Vec<String>) -> (r: Option<usize>)
        ensures
            match r {
                Some(at) => at < self@.pending.len() && self@.suits(
                    worker_id@,
                    tasks.deep_view(),
                    at as int,
                ) && forall|k: int|
                    0 <= k < at ==> !self@.suits(worker_id@, tasks.deep_view(), k),
                None => forall|k: int|
                    0 <= k < self@.pending.len() ==> !self@.suits(worker_id@, tasks.deep_view(), k),
            },
    {
        let mut i: usize = 0;
        while i < self.pending.len()
            invariant
                i <= self.pending@.len(),
                forall|k: int| 0 <= k < i ==> !self@.suits(worker_id@, tasks.deep_view(), k),
            decreases self.pending@.len() - i,
        {
            assert(self@.pending[i as int] == self.pending@[i as int]@);
            let task = &self.pending[i].task;
            let allowed = match self.workers.get(worker_id) {
                Some(worker) => holds_text(&worker.tasks, task),
                None => holds_text(tasks, task),
            };
            if holds_text(tasks, task) && allowed {
                return Some(i);
            }
            i = i + 1;
        }
        None
    }

    /// The run that the worker can be given: its position among those that wait, and the
    /// command that claims it for the worker.
    pub fn claim_pending_for(&self, worker_id: &str, tasks: &Vec<String>, now: Timestamp) -> (r:
        Option<(usize, RaftCommand)>)
        requires
            now@.can_add(LEASE_SECONDS as int),
        ensures
            match r {
                Some((at, command)) => {
                    &&& at < self@.pending.len()
                    &&& self@.suits(worker_id@, tasks.deep_view(), at as int)
                    &&& forall|k: int| 0 <= k < at ==> !self@.suits(worker_id@, tasks.deep_view(), k)
                    &&& command@ == self@.claim(
                        worker_id@,
                        at as int,
                        now@.plus(LEASE_SECONDS as int),
                    )
                },
                None => forall|k: int|
                    0 <= k < self@.pending.len() ==> !self@.suits(worker_id@, tasks.deep_view(), k),
            },
    {
        let at: usize = match self.first_suitable(worker_id, tasks) {
            Some(at) => at,
            None => {
                return None;
            },
        };
        let lease_deadline = match now.plus(LEASE_SECONDS as i64) {
            Some(t) => t,
            None => now,
        };
        let run = &self.pending[at];
        assert(self@.pending[at as int] == run@);
        Some(
            (
                at,
                RaftCommand::ClaimRun {
                    timer_id: TimerId::new(&run.timer),
                    run_id: RunId(run.run_id.clone()),
                    worker_id: worker_id.to_owned(),
                    fencing_token: run.fencing_token,
                    attempt: run.attempt,
                    lease_deadline,
                },
            ),
        )
    }

    /// Gives the worker the run that waits at the position, once the claim is logged.
    pub fn give_run(&mut self, worker_id: &str, at: usize, now: Timestamp) -> (r: WorkerRun)
        requires
            at < old(self)@.pending.len(),
            now@.can_add(LEASE_SECONDS as int),
        ensures
            r@ == old(self)@.pending[at as int],
            final(self)@ == old(self)@.claimed(
                worker_id@,
                at as int,
                now@.plus(LEASE_SECONDS as int),
                now@,
            ),
    {
        let lease_deadline = match now.plus(LEASE_SECONDS as i64) {
            Some(t) => t,
            None => now,
        };
        let ghost before = self.pending.deep_view();
        let run = self.pending.remove(at);
        assert(run@ == before[at as int]);
        assert(self.pending.deep_view() =~= before.remove(at as int));
        self.active_runs.insert(
            run.run_id.clone(),
            PersistedActiveRun {
                timer_id: TimerId::new(&run.timer),
                run_id: RunId(run.run_id.clone()),
                worker_id: worker_id.to_owned(),
                fencing_token: run.fencing_token,
                attempt: run.attempt,
                lease_deadline,
            },
        );
        self.set_state(&run.timer, TimerState::Running);
        let entry = history_of_run(
            HistoryKind::RunClaimed,
            &run.timer,
            &run.run_id,
            Some(worker_id.to_owned()),
            Some(run.fencing_token),
            now,
        );
        self.note(entry);
        run
    }
}

proof fn lost_workers_keep_tokens(state: ClusterView, ids: Seq<Seq<char>>, now: TimeView)
    ensures
        state.lost_all(ids, now).fencing == state.fencing,
    decreases ids.len(),
{
    if ids.len() > 0 {
        lost_workers_keep_tokens(state, ids.drop_last(), now);
    }
}

proof fn keys_where_are_few(keys: Seq<Seq<char>>, wanted: spec_fn(Seq<char>) -> bool)
    ensures
        keys_where(keys, wanted).len() <= keys.len(),
    decreases keys.len(),
{
    if keys.len() > 0 {
        keys_where_are_few(keys.drop_last(), wanted);
    }
}

proof fn tokens_grow_by_one(state: ClusterView, runs: Seq<Seq<char>>, now: TimeView, n: int)
    requires
        runs.len() <= n <= u64::MAX,
        state.tokens_can_grow_by(n),
    ensures
        state.can_expire_all(runs, now),
        state.expired_all(runs, now).tokens_can_grow_by(n - runs.len()),
    decreases runs.len(),
{
    if runs.len() > 0 {
        tokens_grow_by_one(state, runs.drop_last(), now, n);
        let before = state.expired_all(runs.drop_last(), now);
        let after = before.expired(runs.last(), now);
        let timer = before.active_runs[runs.last()].timer_id;
        assert forall|id: Seq<char>| #[trigger] after.fencing.dom().contains(id) implies
            after.fencing[id] + (n - runs.len()) <= u64::MAX by {
            if id != timer {
                assert(before.fencing.dom().contains(id));
            } else if before.fencing.dom().contains(id) {
                assert(before.fencing[id] + (n - runs.len() + 1) <= u64::MAX);
            }
        }
        if before.fencing.dom().contains(timer) {
            assert(before.fencing[timer] + (n - runs.len() + 1) <= u64::MAX);
        }
    }
}

proof fn can_expire_first(state: ClusterView, runs: Seq<Seq<char>>, now: TimeView, n: int)
    requires
        state.can_expire_all(runs, now),
        0 <= n <= runs.len(),
    ensures
        state.can_expire_all(runs.take(n), now),
    decreases runs.len() - n,
{
    if n < runs.len() {
        can_expire_first(state, runs, now, n + 1);
        assert(runs.take(n + 1).drop_last() =~= runs.take(n));
    } else {
        assert(runs.take(n) =~= runs);
    }
}

/// How long a poll waits for a run, in milliseconds.
pub const POLL_MS: u64 = 20_000;

/// How long a poll sleeps between two looks, in milliseconds.
pub const POLL_PAUSE_MS: u64 = 100;

/// What a poll does next.
#[derive(Debug)]
pub enum PollStep {
    /// Log the claim, and then give out the run that waits at the position.
    Claim { at: usize, command: RaftCommand },
    /// Answer that there is no run.
    Stop,
    /// Sleep for a while and look again.
    Wait { millis: u64 },
}

/// What is shown of a server.
#[derive(Debug)]
pub struct ClusterStatus {
    pub node_id: String,
    pub leader_id: String,
    pub role: String,
    pub timers: usize,
    pub workers: usize,
    pub peers: Vec<NodeInfo>,
}

/// How many of the server and its peers are more than half.
pub open spec fn majority(peers: nat) -> nat {
    (peers + 1) / 2 + 1
}

/// The error of too few acknowledgements.
pub open spec fn quorum_failure(acks: nat, needed: nat) -> KronErrorView {
    KronErrorView::IpcUnavailable(
        "replication quorum failed: "@ + crate::text::decimal(acks) + "/"@ + crate::text::decimal(
            needed,
        ) + " acknowledgements"@,
    )
}

/// A server. A change goes in two steps: a method that looks at the server tells the
/// command that has to be logged, and replicated where it says so; once that is done, a
/// method that changes the server follows.
pub struct ClusterEngine {
    pub data_dir: String,
    pub state: ClusterState,
}

impl ClusterEngine {
    /// A server that leads and knows nothing yet.
    pub fn open(data_dir: &str, node_id: &str, http_addr: &str, raft_addr: &str) -> (r: Self)
        ensures
            r.data_dir@ == data_dir@,
            r.state@ == ClusterView::initial(
                ConfigView {
                    node_id: node_id@,
                    http_addr: http_addr@,
                    raft_addr: raft_addr@,
                    leader_id: node_id@,
                    peers: Seq::empty(),
                },
            ),
            r.state@.leader,
    {
        ClusterEngine::open_with_leader(data_dir, node_id, http_addr, raft_addr, None)
    }

    /// A server that knows nothing yet; without a leader it leads itself.
    pub fn open_with_leader(
        data_dir: &str,
        node_id: &str,
        http_addr: &str,
        raft_addr: &str,
        leader_id: Option<String>,
    ) -> (r: Self)
        ensures
            r.data_dir@ == data_dir@,
            r.state@ == ClusterView::initial(
                ConfigView {
                    node_id: node_id@,
                    http_addr: http_addr@,
                    raft_addr: raft_addr@,
                    leader_id: match leader_id {
                        Some(id) => id@,
                        None => node_id@,
                    },
                    peers: Seq::empty(),
                },
            ),
    {
        let config = ClusterConfig {
            node_id: node_id.to_owned(),
            http_addr: http_addr.to_owned(),
            raft_addr: raft_addr.to_owned(),
            leader_id: match leader_id {
                Some(id) => id,
                None => node_id.to_owned(),
            },
            peers: Vec::new(),
        };
        assert(config.peers.deep_view() =~= Seq::<NodeView>::empty());
        ClusterEngine { data_dir: data_dir.to_owned(), state: ClusterState::new(config) }
    }

    /// Applies the commands of the log. The first that cannot be applied is an error.
    pub fn replay_commands(self, commands: &Vec<RaftCommand>, now: Timestamp, tick: u64) -> (r:
        Result<Self, KronError>)
        requires
            self.state@.can_replay(commands.deep_view(), now@, tick),
        ensures
            match r {
                Ok(engine) => engine.data_dir@ == self.data_dir@ && self.state@.replay(
                    commands.deep_view(),
                    now@,
                    tick,
                ) == Ok::<_, KronErrorView>(engine.state@),
                Err(error) => self.state@.replay(commands.deep_view(), now@, tick) == Err::<
                    ClusterView,
                    _,
                >(error@),
            },
    {
        let ghost all = commands.deep_view();
        let ghost start = self.state@;
        let ghost dir = self.data_dir@;
        let mut engine = self;
        let mut i: usize = 0;
        assert(all.take(0) =~= Seq::<CommandView>::empty());
        while i < commands.len()
            invariant
                i <= commands@.len(),
                all == commands.deep_view(),
                start.can_replay(all, now@, tick),
                start.replay(all.take(i as int), now@, tick) == Ok::<_, KronErrorView>(
                    engine.state@,
                ),
                engine.data_dir@ == dir,
                start == self.state@,
            decreases commands@.len() - i,
        {
            proof {
                assert(all.take(i + 1).drop_last() =~= all.take(i as int));
                assert(all.take(i + 1).last() == commands@[i as int]@);
                can_replay_first(start, all, now@, tick, i + 1);
            }
            if let Err(error) = engine.state.apply_command(&commands[i], now, tick) {
                proof {
                    replay_stops(start, all, now@, tick, i + 1, error@);
                }
                return Err(error);
            }
            i = i + 1;
        }
        assert(all.take(all.len() as int) =~= all);
        Ok(engine)
    }

    /// Refuses what only the leader may do.
    pub fn ensure_leader(&self) -> (r: Result<(), KronError>)
        ensures
            match r {
                Ok(_) => self.state@.leader,
                Err(error) => !self.state@.leader && error@ == self.state@.not_leader(),
            },
    {
        if self.state.leader {
            Ok(())
        } else {
            Err(
                KronError::IpcUnavailable(
                    concat("not_leader: leader is ", &self.state.config.leader_id),
                ),
            )
        }
    }

    /// The command that creates the timer that is asked for. It has to be replicated.
    pub fn create_timer(&self, request: &CreateTimerRequest, now: Timestamp) -> (r: Result<
        RaftCommand,
        KronError,
    >)
        requires
            self.state@.leader ==> request@.can_create(now@),
        ensures
            crate::cluster::command_view(r) == if self.state@.leader {
                request@.creation(now@)
            } else {
                Err(self.state@.not_leader())
            },
    {
        match self.ensure_leader() {
            Ok(_) => creation_of(request, now),
            Err(error) => Err(error),
        }
    }

    /// Takes up a timer once the command that creates it is replicated, and shows it.
    pub fn add_timer(&mut self, spec: DistributedTimerSpec, now: Timestamp) -> (r: Result<
        DistributedSummary,
        KronError,
    >)
        requires
            spec@.schedule.can_run_after(now@, spec@.timezone),
        ensures
            final(self).data_dir@ == old(self).data_dir@,
            match r {
                Ok(summary) => old(self).state@.created(spec@, now@) == Ok::<_, KronErrorView>(
                    final(self).state@,
                ) && Some(summary@) == final(self).state@.summary(spec@.id),
                Err(error) => final(self).state@ == old(self).state@ && old(self).state@.created(
                    spec@,
                    now@,
                ) == Err::<ClusterView, _>(error@),
            },
    {
        let id = spec.id.clone();
        if let Err(error) = self.state.apply_create_timer(spec, now) {
            return Err(error);
        }
        match self.state.summary_for(id.as_str()) {
            Some(summary) => Ok(summary),
            None => Err(KronError::TimerNotFound(id.0)),
        }
    }

    /// What is shown of the timers, in the order of their names.
    pub fn list(&self) -> (r: Vec<DistributedSummary>)
        ensures
            r.deep_view() == self.state@.listed(self.state.timers.order()),
            crate::strmap::sorted(self.state.timers.order()),
            forall|k: Seq<char>| #[trigger]
                self.state@.timers.dom().contains(k) <==> self.state.timers.order().contains(k),
    {
        let n: usize = self.state.timers.len();
        let ghost order = self.state.timers.order();
        let mut out: Vec<DistributedSummary> = Vec::new();
        let mut i: usize = 0;
        assert(order.take(0) =~= Seq::<Seq<char>>::empty());
        assert(out.deep_view() =~= self.state@.listed(order.take(0)));
        while i < n
            invariant
                i <= n == order.len(),
                order == self.state.timers.order(),
                out.deep_view() == self.state@.listed(order.take(i as int)),
            decreases n - i,
        {
            let ghost front = out.deep_view();
            proof {
                assert(order.take(i + 1).drop_last() =~= order.take(i as int));
                assert(order.take(i + 1).last() == order[i as int]);
            }
            if let Some(summary) = self.state.summary_for(self.state.timers.key_at(i)) {
                let ghost shown = summary@;
                out.push(summary);
                assert(out.deep_view() =~= front.push(shown));
            }
            i = i + 1;
        }
        assert(order.take(n as int) =~= order);
        out
    }

    /// What is shown of a timer.
    pub fn status(&self, name: &str) -> (r: Option<DistributedSummary>)
        ensures
            r.deep_view() == self.state@.summary(name@),
    {
        self.state.summary_for(name)
    }

    /// The entries of the history about a timer, oldest first.
    pub fn history(&self, name: &str) -> (r: Vec<HistoryEntry>)
        ensures
            r.deep_view() == crate::cluster::history_of(self.state@.history, name@),
    {
        entries_about(&self.state.history, name)
    }

    /// The command that registers a worker. It has to be replicated.
    pub fn register_worker(&self, request: &WorkerRegisterRequest, now: Timestamp) -> (r: Result<
        RaftCommand,
        KronError,
    >)
        requires
            self.state@.leader ==> now@.can_add(
                lease_of(request.lease_seconds) as int,
            ),
        ensures
            crate::cluster::command_view(r) == if self.state@.leader {
                Ok::<CommandView, KronErrorView>(
                    CommandView::RegisterWorker {
                        worker_id: request.worker_id@,
                        tasks: request.tasks.deep_view(),
                        lease_until: now@.plus(
                            lease_of(request.lease_seconds) as int,
                        ),
                    },
                )
            } else {
                Err(self.state@.not_leader())
            },
    {
        if let Err(error) = self.ensure_leader() {
            return Err(error);
        }
        let seconds: u64 = match request.lease_seconds {
            Some(seconds) => seconds,
            None => LEASE_SECONDS,
        };
        let lease_until = match now.plus_seconds(seconds) {
            Some(t) => t,
            None => now,
        };
        Ok(
            RaftCommand::RegisterWorker {
                worker_id: request.worker_id.clone(),
                tasks: copy_texts(&request.tasks),
                lease_until,
            },
        )
    }

    /// Takes up a worker once the command that registers it is replicated.
    pub fn add_worker(&mut self, request: &WorkerRegisterRequest, now: Timestamp, tick: u64)
        requires
            tick + lease_of(request.lease_seconds) * 1000 <= u64::MAX,
        ensures
            final(self).data_dir@ == old(self).data_dir@,
            final(self).state@ == old(self).state@.registered(
                request.worker_id@,
                request.tasks.deep_view(),
                (tick + lease_of(request.lease_seconds) * 1000) as u64,
                now@,
            ),
    {
        let seconds: u64 = match request.lease_seconds {
            Some(seconds) => seconds,
            None => LEASE_SECONDS,
        };
        self.state.enrol(
            &request.worker_id,
            copy_texts(&request.tasks),
            tick + seconds * 1000,
            now,
        );
    }

    /// Notes that a worker was heard of.
    pub fn heartbeat_worker(&mut self, worker_id: &str, now: Timestamp, tick: u64) -> (r: Result<
        (),
        KronError,
    >)
        requires
            tick + LEASE_SECONDS * 1000 <= u64::MAX,
        ensures
            final(self).data_dir@ == old(self).data_dir@,
            match r {
                Ok(_) => old(self).state@.leader && final(self).state@ == old(self).state@.beating(
                    worker_id@,
                    (tick + LEASE_SECONDS * 1000) as u64,
                    now@,
                ),
                Err(error) => !old(self).state@.leader && error@ == old(self).state@.not_leader()
                    && final(self).state@ == old(self).state@,
            },
    {
        if let Err(error) = self.ensure_leader() {
            return Err(error);
        }
        self.state.beat(worker_id, tick + LEASE_SECONDS * 1000, now);
        Ok(())
    }

    /// Starts to wait for a run for a worker: notes that it was heard of, and tells until
    /// when to wait.
    pub fn poll_worker(&mut self, worker_id: &str, now: Timestamp, tick: u64) -> (r: Result<
        u64,
        KronError,
    >)
        requires
            tick + LEASE_SECONDS * 1000 <= u64::MAX,
        ensures
            final(self).data_dir@ == old(self).data_dir@,
            match r {
                Ok(deadline) => old(self).state@.leader && deadline == tick + POLL_MS
                    && final(self).state@ == old(self).state@.beating(
                    worker_id@,
                    (tick + LEASE_SECONDS * 1000) as u64,
                    now@,
                ),
                Err(error) => !old(self).state@.leader && error@ == old(self).state@.not_leader()
                    && final(self).state@ == old(self).state@,
            },
    {
        match self.heartbeat_worker(worker_id, now, tick) {
            Ok(_) => Ok(tick + POLL_MS),
            Err(error) => Err(error),
        }
    }

    /// What a poll that waits until the deadline does next.
    pub fn poll_step(
        &self,
        worker_id: &str,
        tasks: &Vec<String>,
        now: Timestamp,
        tick: u64,
        deadline: u64,
    ) -> (r: PollStep)
        requires
            now@.can_add(LEASE_SECONDS as int),
        ensures
            match r {
                PollStep::Claim { at, command } => {
                    &&& at < self.state@.pending.len()
                    &&& self.state@.suits(worker_id@, tasks.deep_view(), at as int)
                    &&& forall|k: int|
                        0 <= k < at ==> !self.state@.suits(worker_id@, tasks.deep_view(), k)
                    &&& command@ == self.state@.claim(
                        worker_id@,
                        at as int,
                        now@.plus(LEASE_SECONDS as int),
                    )
                },
                PollStep::Stop => {
                    &&& forall|k: int|
                        0 <= k < self.state@.pending.len() ==> !self.state@.suits(
                            worker_id@,
                            tasks.deep_view(),
                            k,
                        )
                    &&& tick >= deadline || self.state@.shutting_down
                },
                PollStep::Wait { millis } => {
                    &&& forall|k: int|
                        0 <= k < self.state@.pending.len() ==> !self.state@.suits(
                            worker_id@,
                            tasks.deep_view(),
                            k,
                        )
                    &&& tick < deadline && !self.state@.shutting_down
                    &&& millis == POLL_PAUSE_MS
                },
            },
    {
        match self.state.claim_pending_for(worker_id, tasks, now) {
            Some((at, command)) => PollStep::Claim { at, command },
            None => if tick >= deadline || self.state.shutting_down {
                PollStep::Stop
            } else {
                PollStep::Wait { millis: POLL_PAUSE_MS }
            },
        }
    }

    /// The command that completes a run. It has to be logged.
    pub fn complete_run(&self, run_id: &str, request: &RunCompleteRequest, now: Timestamp) -> (r:
        Result<RaftCommand, KronError>)
        ensures
            crate::cluster::command_view(r) == if !self.state@.leader {
                Err(self.state@.not_leader())
            } else {
                match self.state@.refusal(run_id@, request.worker_id@, request.fencing_token) {
                    Some(error) => Err(error),
                    None => Ok(
                        CommandView::CompleteRun {
                            run_id: run_id@,
                            worker_id: request.worker_id@,
                            fencing_token: request.fencing_token,
                            completed_at: now@,
                        },
                    ),
                }
            },
    {
        if let Err(error) = self.ensure_leader() {
            return Err(error);
        }
        match self.state.validate_active_run(run_id, &request.worker_id, request.fencing_token) {
            Err(error) => Err(error),
            Ok(_) => Ok(
                RaftCommand::CompleteRun {
                    run_id: RunId(run_id.to_owned()),
                    worker_id: request.worker_id.clone(),
                    fencing_token: request.fencing_token,
                    completed_at: now,
                },
            ),
        }
    }

    /// Ends a run once the command that completes it is logged.
    pub fn end_completed(&mut self, run_id: &str, now: Timestamp)
        requires
            old(self).state@.active_runs.dom().contains(run_id@),
            old(self).state@.can_reschedule(
                old(self).state@.active_runs[run_id@].timer_id,
                now@,
            ),
        ensures
            final(self).data_dir@ == old(self).data_dir@,
            final(self).state@ == old(self).state@.completed(run_id@, None, now@),
    {
        self.state.finish_completed(run_id, None, now);
    }

    /// The command that fails a run. It has to be logged.
    pub fn fail_run(&self, run_id: &str, request: &RunFailRequest, now: Timestamp) -> (r: Result<
        RaftCommand,
        KronError,
    >)
        ensures
            crate::cluster::command_view(r) == if !self.state@.leader {
                Err(self.state@.not_leader())
            } else {
                match self.state@.refusal(run_id@, request.worker_id@, request.fencing_token) {
                    Some(error) => Err(error),
                    None => Ok(
                        CommandView::FailRun {
                            run_id: run_id@,
                            worker_id: request.worker_id@,
                            fencing_token: request.fencing_token,
                            error: request.error@,
                            failed_at: now@,
                        },
                    ),
                }
            },
    {
        if let Err(error) = self.ensure_leader() {
            return Err(error);
        }
        match self.state.validate_active_run(run_id, &request.worker_id, request.fencing_token) {
            Err(error) => Err(error),
            Ok(_) => Ok(
                RaftCommand::FailRun {
                    run_id: RunId(run_id.to_owned()),
                    worker_id: request.worker_id.clone(),
                    fencing_token: request.fencing_token,
                    error: request.error.clone(),
                    failed_at: now,
                },
            ),
        }
    }

    /// Ends a run once the command that fails it is logged.
    pub fn end_failed(&mut self, run_id: &str, error: &String, now: Timestamp)
        requires
            old(self).state@.active_runs.dom().contains(run_id@),
            old(self).state@.can_fail(run_id@),
        ensures
            final(self).data_dir@ == old(self).data_dir@,
            final(self).state@ == old(self).state@.failed(run_id@, None, error@, now@),
    {
        self.state.finish_failed(run_id, None, error, now);
    }

    /// What is shown of the server.
    pub fn cluster_status(&self) -> (r: ClusterStatus)
        ensures
            r.node_id@ == self.state@.config.node_id,
            r.leader_id@ == self.state@.config.leader_id,
            r.role@ == if self.state@.leader {
                "leader"@
            } else {
                "follower"@
            },
            r.timers == self.state.timers.order().len(),
            r.workers == self.state.workers.order().len(),
            r.peers.deep_view() == self.state@.config.peers,
    {
        ClusterStatus {
            node_id: self.state.config.node_id.clone(),
            leader_id: self.state.config.leader_id.clone(),
            role: if self.state.leader {
                "leader".to_string()
            } else {
                "follower".to_string()
            },
            timers: self.state.timers.len(),
            workers: self.state.workers.len(),
            peers: copy_nodes(&self.state.config.peers),
        }
    }

    /// The command that adds a node. It has to be replicated.
    pub fn join(&self, request: &JoinRequest) -> (r: Result<RaftCommand, KronError>)
        ensures
            crate::cluster::command_view(r) == if self.state@.leader {
                Ok::<CommandView, KronErrorView>(
                    CommandView::AddNode {
                        node: NodeView {
                            node_id: request.node_id@,
                            http_addr: request.http_addr@,
                            raft_addr: request.raft_addr@,
                        },
                    },
                )
            } else {
                Err(self.state@.not_leader())
            },
    {
        match self.ensure_leader() {
            Err(error) => Err(error),
            Ok(_) => Ok(
                RaftCommand::AddNode {
                    node: NodeInfo {
                        node_id: request.node_id.clone(),
                        http_addr: request.http_addr.clone(),
                        raft_addr: request.raft_addr.clone(),
                    },
                },
            ),
        }
    }

    /// The command that removes a node. It has to be logged.
    pub fn leave(&self, request: &LeaveRequest) -> (r: Result<RaftCommand, KronError>)
        ensures
            crate::cluster::command_view(r) == if self.state@.leader {
                Ok::<CommandView, KronErrorView>(
                    CommandView::RemoveNode { node_id: request.node_id@ },
                )
            } else {
                Err(self.state@.not_leader())
            },
    {
        match self.ensure_leader() {
            Err(error) => Err(error),
            Ok(_) => Ok(RaftCommand::RemoveNode { node_id: request.node_id.clone() }),
        }
    }

    /// Asks the server to stop.
    pub fn shutdown(&mut self)
        ensures
            final(self).data_dir@ == old(self).data_dir@,
            final(self).state@ == (ClusterView { shutting_down: true, ..old(self).state@ }),
    {
        self.state.shutting_down = true;
    }

    /// Whether the server was asked to stop.
    pub fn is_shutting_down(&self) -> (r: bool)
        ensures
            r == self.state@.shutting_down,
    {
        self.state.shutting_down
    }

    /// The data directory.
    pub fn data_dir(&self) -> (r: &str)
        ensures
            r@ == self.data_dir@,
    {
        self.data_dir.as_str()
    }

    /// Applies a command that was logged, and tells whether the configuration has to be
    /// written again.
    pub fn apply_replicated_command(&mut self, command: &RaftCommand, now: Timestamp, tick: u64)
        -> (r: Result<bool, KronError>)
        requires
            old(self).state@.can_apply(command@, now@, tick),
        ensures
            final(self).data_dir@ == old(self).data_dir@,
            match r {
                Ok(changed) => old(self).state@.apply(command@, now@, tick) == Ok::<
                    _,
                    KronErrorView,
                >(final(self).state@) && changed == (command@ is AddNode || command@ is RemoveNode),
                Err(error) => final(self).state@ == old(self).state@ && old(self).state@.apply(
                    command@,
                    now@,
                    tick,
                ) == Err::<ClusterView, _>(error@),
            },
    {
        match self.state.apply_command(command, now, tick) {
            Ok(_) => Ok(
                matches!(command, RaftCommand::AddNode { .. } | RaftCommand::RemoveNode { .. }),
            ),
            Err(error) => Err(error),
        }
    }

    /// Whether a command is replicated, given how many nodes hold it, the server itself
    /// included.
    pub fn check_quorum(&self, acks: usize) -> (r: Result<(), KronError>)
        ensures
            match r {
                Ok(_) => acks >= majority(self.state@.config.peers.len()),
                Err(error) => {
                    &&& acks < majority(self.state@.config.peers.len())
                    &&& error@ == quorum_failure(
                        acks as nat,
                        majority(self.state@.config.peers.len()),
                    )
                },
            },
    {
        let peers: usize = self.state.config.peers.len();
        let needed: u64 = (peers as u64) / 2 + (peers as u64) % 2 + 1;
        assert(needed == majority(peers as nat)) by (nonlinear_arith)
            requires
                needed == (peers as u64) / 2 + (peers as u64) % 2 + 1,
        ;
        if (acks as u64) < needed {
            let head = concat4(
                "replication quorum failed: ",
                &decimal_of(acks as u64),
                "/",
                &decimal_of(needed),
            );
            Err(KronError::IpcUnavailable(concat(&head, " acknowledgements")))
        } else {
            Ok(())
        }
    }
}

/// The seconds that a worker that says nothing is counted on.
pub open spec fn lease_of(seconds: Option<u64>) -> u64 {
    match seconds {
        Some(n) => n,
        None => LEASE_SECONDS,
    }
}

/// A copy of a list of nodes.
fn copy_nodes(nodes: &Vec<NodeInfo>) -> (r: Vec<NodeInfo>)
    ensures
        r.deep_view() == nodes.deep_view(),
{
    let mut out: Vec<NodeInfo> = Vec::new();
    let mut i: usize = 0;
    while i < nodes.len()
        invariant
            i <= nodes@.len(),
            out@.len() == i,
            forall|k: int| 0 <= k < i ==> (#[trigger] out@[k])@ == nodes@[k]@,
        decreases nodes@.len() - i,
    {
        out.push(nodes[i].clone());
        i = i + 1;
    }
    assert(out.deep_view() =~= nodes.deep_view());
    out
}

proof fn can_replay_first(
    state: ClusterView,
    commands: Seq<CommandView>,
    now: TimeView,
    tick: u64,
    n: int,
)
    requires
        state.can_replay(commands, now, tick),
        0 <= n <= commands.len(),
    ensures
        state.can_replay(commands.take(n), now, tick),
    decreases commands.len() - n,
{
    if n < commands.len() {
        can_replay_first(state, commands, now, tick, n + 1);
        assert(commands.take(n + 1).drop_last() =~= commands.take(n));
    } else {
        assert(commands.take(n) =~= commands);
    }
}

proof fn replay_stops(
    state: ClusterView,
    commands: Seq<CommandView>,
    now: TimeView,
    tick: u64,
    n: int,
    error: KronErrorView,
)
    requires
        0 <= n <= commands.len(),
        state.replay(commands.take(n), now, tick) == Err::<ClusterView, _>(error),
    ensures
        state.replay(commands, now, tick) == Err::<ClusterView, _>(error),
    decreases commands.len() - n,
{
    if n < commands.len() {
        assert(commands.take(n + 1).drop_last() =~= commands.take(n));
        replay_stops(state, commands, now, tick, n + 1, error);
    } else {
        assert(commands.take(n) =~= commands);
    }
}

/// Who does not hold a run under its token is refused, and a command by which they would
/// end it changes nothing.
pub proof fn stale_worker_is_refused(
    server: ClusterView,
    run_id: Seq<char>,
    worker_id: Seq<char>,
    token: u64,
    error: Seq<char>,
    at: TimeView,
    now: TimeView,
    tick: u64,
)
    requires
        !server.holds(run_id, worker_id, token),
    ensures
        server.refusal(run_id, worker_id, token) is Some,
        server.apply(
            CommandView::CompleteRun { run_id, worker_id, fencing_token: token, completed_at: at },
            now,
            tick,
        ) == Ok::<_, KronErrorView>(server),
        server.apply(
            CommandView::FailRun { run_id, worker_id, fencing_token: token, error, failed_at: at },
            now,
            tick,
        ) == Ok::<_, KronErrorView>(server),
{
}

/// While a run of a timer is active, a claim of another run of it changes nothing.
pub proof fn active_timer_is_not_claimed(
    server: ClusterView,
    timer_id: Seq<char>,
    run_id: Seq<char>,
    worker_id: Seq<char>,
    fencing_token: u64,
    attempt: u32,
    lease_deadline: TimeView,
    now: TimeView,
    tick: u64,
)
    requires
        server.is_active(timer_id),
    ensures
        server.apply(
            CommandView::ClaimRun {
                timer_id,
                run_id,
                worker_id,
                fencing_token,
                attempt,
                lease_deadline,
            },
            now,
            tick,
        ) == Ok::<_, KronErrorView>(server),
{
}

/// The worker that a run is given to holds it, and the run waits no longer.
pub proof fn given_run_is_held(
    server: ClusterView,
    worker_id: Seq<char>,
    at: int,
    deadline: TimeView,
    now: TimeView,
)
    requires
        0 <= at < server.pending.len(),
    ensures
        ({
            let run = server.pending[at];
            let after = server.claimed(worker_id, at, deadline, now);
            &&& after.holds(run.run_id, worker_id, run.fencing_token)
            &&& after.refusal(run.run_id, worker_id, run.fencing_token) is None
            &&& after.is_active(run.timer)
            &&& after.pending.len() == server.pending.len() - 1
        }),
{
    let after = server.claimed(worker_id, at, deadline, now);
    assert(after.active_runs.dom().contains(server.pending[at].run_id));
}

/// A run that has ended, by completion or by failure, cannot be ended again.
pub proof fn run_is_ended_once(
    server: ClusterView,
    run_id: Seq<char>,
    worker_id: Seq<char>,
    token: u64,
    by: Option<Seq<char>>,
    error: Seq<char>,
    now: TimeView,
)
    requires
        server.holds(run_id, worker_id, token),
    ensures
        server.completed(run_id, by, now).refusal(run_id, worker_id, token) == Some(
            KronErrorView::IpcUnavailable("run not active"@),
        ),
        server.failed(run_id, by, error, now).refusal(run_id, worker_id, token) == Some(
            KronErrorView::IpcUnavailable("run not active"@),
        ),
{
}

/// A run that is taken from its worker leaves that worker nothing to end. If it has an
/// attempt left, it waits under its own name as the next attempt, with a token that no
/// worker of the timer had before.
pub proof fn expired_run_is_fenced(server: ClusterView, run_id: Seq<char>, now: TimeView)
    requires
        server.active_runs.dom().contains(run_id),
        server.active_runs[run_id].run_id == run_id,
        server.active_runs[run_id].fencing_token <= server.token_of(
            server.active_runs[run_id].timer_id,
        ) < u64::MAX,
    ensures
        ({
            let active = server.active_runs[run_id];
            let after = server.expired(run_id, now);
            &&& forall|worker: Seq<char>, token: u64| !after.holds(run_id, worker, token)
            &&& server.timers.dom().contains(active.timer_id)
                && server.timers[active.timer_id].target is WorkerTask && active.attempt
                < server.timers[active.timer_id].retry.max_attempts ==> {
                &&& after.pending.len() == server.pending.len() + 1
                &&& after.pending.last().run_id == run_id
                &&& after.pending.last().attempt == active.attempt + 1
                &&& after.pending.last().fencing_token > active.fencing_token
                &&& after.pending.last().fencing_token > server.token_of(active.timer_id)
                &&& after.token_of(active.timer_id) == after.pending.last().fencing_token
                &&& after.states[active.timer_id] == TimerState::Retrying
            }
            &&& server.timers.dom().contains(active.timer_id) && active.attempt
                >= server.timers[active.timer_id].retry.max_attempts ==> {
                &&& after.pending == server.pending
                &&& after.states[active.timer_id] == TimerState::Dead
            }
        }),
{
}

/// A run that has failed leaves its worker nothing to end, and its failure is told of with
/// the error. The timer is dead if and only if that was the last attempt. While there are
/// attempts left, a task for workers waits under its own name as the next attempt, with a
/// token that no worker of the timer had before; any other timer is scheduled as before.
pub proof fn failed_run_is_tried_again(
    server: ClusterView,
    run_id: Seq<char>,
    by: Option<Seq<char>>,
    error: Seq<char>,
    now: TimeView,
)
    requires
        server.active_runs.dom().contains(run_id),
        server.active_runs[run_id].run_id == run_id,
        server.can_fail(run_id),
    ensures
        ({
            let active = server.active_runs[run_id];
            let after = server.failed(run_id, by, error, now);
            &&& after.active_runs == server.active_runs.remove(run_id)
            &&& after.history.len() == server.history.len() + 1
            &&& after.history.drop_last() == server.history
            &&& after.history.last().kind == HistoryKind::RunFailed
            &&& after.history.last().run_id == Some(run_id)
            &&& after.history.last().error == Some(error)
            &&& server.has_retry(active) ==> {
                &&& after.pending.drop_last() == server.pending
                &&& after.pending.last().run_id == run_id
                &&& after.pending.last().attempt == active.attempt + 1
                &&& after.pending.last().fencing_token > server.token_of(active.timer_id)
                &&& after.token_of(active.timer_id) == after.pending.last().fencing_token
                &&& after.states[active.timer_id] == TimerState::Retrying
            }
            &&& after.next_runs == server.next_runs
            &&& after.timers == server.timers
            &&& !server.has_retry(active) ==> {
                &&& after.pending == server.pending
                &&& after.fencing == server.fencing
            }
            &&& server.attempts_left(active) && !(server.timers[active.timer_id].target is WorkerTask)
                ==> after.states[active.timer_id] == TimerState::Scheduled
            &&& after.states[active.timer_id] == TimerState::Dead <==> !server.attempts_left(active)
        }),
{
    let after = server.failed(run_id, by, error, now);
    assert(after.history.drop_last() =~= server.history);
    if server.has_retry(server.active_runs[run_id]) {
        assert(after.pending.drop_last() =~= server.pending);
    }
}

/// A timer of which a run waits or is active does not get another one.
pub proof fn timer_has_one_run(
    server: ClusterView,
    id: Seq<char>,
    first: Seq<char>,
    second: Seq<char>,
)
    requires
        server.token_of(id) < u64::MAX,
    ensures
        server.is_pending(id) || server.is_active(id) ==> server.enqueued(id, first) == server,
        server.enqueued(id, first).enqueued(id, second) == server.enqueued(id, first),
        server.enqueued(id, first).token_of(id) >= server.token_of(id),
{
    let after = server.enqueued(id, first);
    if after.pending.len() > server.pending.len() {
        assert(after.pending[after.pending.len() - 1].timer == id);
        assert(after.is_pending(id));
    }
}

/// A node that joins and leaves again leaves the cluster as it was, unless it was a peer
/// before.
pub proof fn leaving_undoes_joining(server: ClusterView, node: NodeView)
    requires
        !server.has_peer(node.node_id),
    ensures
        server.joined(node).left(node.node_id) == server,
        node.node_id != server.config.node_id ==> server.joined(node).has_peer(node.node_id),
{
    strangers_stay(server.config.peers, node.node_id);
    let after = server.joined(node);
    if node.node_id != server.config.node_id {
        assert(after.config.peers.drop_last() =~= server.config.peers);
        assert(after.config.peers[after.config.peers.len() - 1] == node);
    }
    assert(after.left(node.node_id) =~= server);
}

proof fn strangers_stay(nodes: Seq<NodeView>, node_id: Seq<char>)
    requires
        forall|i: int| 0 <= i < nodes.len() ==> (#[trigger] nodes[i]).node_id != node_id,
    ensures
        without_node(nodes, node_id) == nodes,
    decreases nodes.len(),
{
    if nodes.len() > 0 {
        assert forall|i: int| 0 <= i < nodes.drop_last().len() implies (
        #[trigger] nodes.drop_last()[i]).node_id != node_id by {
            assert(nodes[i].node_id != node_id);
        }
        strangers_stay(nodes.drop_last(), node_id);
        assert(nodes[nodes.len() - 1].node_id != node_id);
        assert(nodes.drop_last().push(nodes.last()) =~= nodes);
    }
}

/// Two sets of nodes that each make up a majority share a node.
pub proof fn majorities_overlap(peers: nat)
    ensures
        2 * majority(peers) > peers + 1,
        majority(peers) <= peers + 1,
{
}

/// Replaying commands in two parts leads to where replaying them at once leads.
pub proof fn replay_in_parts(
    server: ClusterView,
    first: Seq<CommandView>,
    second: Seq<CommandView>,
    now: TimeView,
    tick: u64,
)
    ensures
        server.replay(first + second, now, tick) == match server.replay(first, now, tick) {
            Ok(after) => after.replay(second, now, tick),
            Err(error) => Err(error),
        },
    decreases second.len(),
{
    if second.len() == 0 {
        assert(first + second =~= first);
    } else {
        assert((first + second).drop_last() =~= first + second.drop_last());
        assert((first + second).last() == second.last());
        replay_in_parts(server, first, second.drop_last(), now, tick);
    }
}

impl ClusterView {
    /// Whether no timer has two active runs.
    pub open spec fn one_active_run(self) -> bool {
        forall|a: Seq<char>, b: Seq<char>|
            #![trigger self.active_runs.dom().contains(a), self.active_runs.dom().contains(b)]
            self.active_runs.dom().contains(a) && self.active_runs.dom().contains(b)
                && self.active_runs[a].timer_id == self.active_runs[b].timer_id ==> a == b
    }
}

/// No command gives a timer a second active run.
pub proof fn one_active_run_is_kept(
    server: ClusterView,
    command: CommandView,
    now: TimeView,
    tick: u64,
)
    requires
        server.one_active_run(),
    ensures
        server.apply(command, now, tick) matches Ok(after) ==> after.one_active_run(),
{
}

/// After the replay of a log no timer has two active runs.
pub proof fn one_active_run_after_replay(
    config: ConfigView,
    commands: Seq<CommandView>,
    now: TimeView,
    tick: u64,
)
    ensures
        ClusterView::initial(config).replay(commands, now, tick) matches Ok(after)
            ==> after.one_active_run(),
    decreases commands.len(),
{
    if commands.len() > 0 {
        let front = commands.drop_last();
        one_active_run_after_replay(config, front, now, tick);
        if let Ok(before) = ClusterView::initial(config).replay(front, now, tick) {
            one_active_run_is_kept(before, commands.last(), now, tick);
        }
    }
}

} // verus!
