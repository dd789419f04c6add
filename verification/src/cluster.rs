//! The data of the server: timers that workers run, the workers and their runs, the
//! nodes, and the commands that are replicated between them.

use vstd::prelude::*;

use crate::error::{KronError, KronErrorView};
use crate::retry::{BackoffStrategy, RetryPolicy};
use crate::schedule::{duration_str_fits, parse_duration_str, Schedule, ScheduleView};
use crate::strmap::Duplicate;
use crate::text::{concat, copy_option};
use crate::timer::{RunId, TimerId, TimerState};
use crate::timestamp::{parse_rfc3339, TimeView, Timestamp};

verus! {

/// A node of a cluster and where it listens.
#[derive(Debug, PartialEq, Eq)]
pub struct NodeInfo {
    pub node_id: String,
    pub http_addr: String,
    pub raft_addr: String,
}

/// A [`NodeInfo`] as a mathematical value.
pub struct NodeView {
    pub node_id: Seq<char>,
    pub http_addr: Seq<char>,
    pub raft_addr: Seq<char>,
}

impl View for NodeInfo {
    type V = NodeView;

    open spec fn view(&self) -> NodeView {
        NodeView {
            node_id: self.node_id@,
            http_addr: self.http_addr@,
            raft_addr: self.raft_addr@,
        }
    }
}

impl DeepView for NodeInfo {
    type V = NodeView;

    open spec fn deep_view(&self) -> NodeView {
        self@
    }
}

impl Clone for NodeInfo {
    fn clone(&self) -> (r: Self)
        ensures
            r@ == self@,
    {
        NodeInfo {
            node_id: self.node_id.clone(),
            http_addr: self.http_addr.clone(),
            raft_addr: self.raft_addr.clone(),
        }
    }
}

impl Duplicate for NodeInfo {
    fn duplicate(&self) -> (r: Self) {
        self.clone()
    }
}

/// How a node sees its cluster.
#[derive(Debug)]
pub struct ClusterConfig {
    pub node_id: String,
    pub http_addr: String,
    pub raft_addr: String,
    pub leader_id: String,
    pub peers: Vec<NodeInfo>,
}

/// A [`ClusterConfig`] as a mathematical value.
#[verifier::ext_equal]
pub struct ConfigView {
    pub node_id: Seq<char>,
    pub http_addr: Seq<char>,
    pub raft_addr: Seq<char>,
    pub leader_id: Seq<char>,
    pub peers: Seq<NodeView>,
}

impl View for ClusterConfig {
    type V = ConfigView;

    open spec fn view(&self) -> ConfigView {
        ConfigView {
            node_id: self.node_id@,
            http_addr: self.http_addr@,
            raft_addr: self.raft_addr@,
            leader_id: self.leader_id@,
            peers: self.peers.deep_view(),
        }
    }
}

/// A node that wants to join a cluster.
#[derive(Debug)]
pub struct JoinRequest {
    pub node_id: String,
    pub http_addr: String,
    pub raft_addr: String,
}

/// A node that wants to leave a cluster.
#[derive(Debug)]
pub struct LeaveRequest {
    pub node_id: String,
}

/// What a timer sets off. A payload is the text of a JSON value.
#[derive(Debug, PartialEq, Eq)]
pub enum TimerTarget {
    EmbeddedFn { name: String },
    WorkerTask { task: String, payload: String },
    HttpTarget { url: String },
}

/// A [`TimerTarget`] as a mathematical value.
pub enum TargetView {
    EmbeddedFn { name: Seq<char> },
    WorkerTask { task: Seq<char>, payload: Seq<char> },
    HttpTarget { url: Seq<char> },
}

impl View for TimerTarget {
    type V = TargetView;

    open spec fn view(&self) -> TargetView {
        match self {
            TimerTarget::EmbeddedFn { name } => TargetView::EmbeddedFn { name: name@ },
            TimerTarget::WorkerTask { task, payload } => TargetView::WorkerTask {
                task: task@,
                payload: payload@,
            },
            TimerTarget::HttpTarget { url } => TargetView::HttpTarget { url: url@ },
        }
    }
}

impl Clone for TimerTarget {
    fn clone(&self) -> (r: Self)
        ensures
            r@ == self@,
    {
        match self {
            TimerTarget::EmbeddedFn { name } => TimerTarget::EmbeddedFn { name: name.clone() },
            TimerTarget::WorkerTask { task, payload } => TimerTarget::WorkerTask {
                task: task.clone(),
                payload: payload.clone(),
            },
            TimerTarget::HttpTarget { url } => TimerTarget::HttpTarget { url: url.clone() },
        }
    }
}

/// What a timer of the server is meant to do, and which tenant it belongs to.
#[derive(Debug, PartialEq, Eq)]
pub struct DistributedTimerSpec {
    pub id: TimerId,
    pub tenant_id: Option<String>,
    pub schedule: Schedule,
    pub retry: RetryPolicy,
    pub timezone: String,
    pub target: TimerTarget,
    pub created_at: Timestamp,
}

/// A [`DistributedTimerSpec`] as a mathematical value.
pub struct DistributedSpecView {
    pub id: Seq<char>,
    pub tenant_id: Option<Seq<char>>,
    pub schedule: ScheduleView,
    pub retry: RetryPolicy,
    pub timezone: Seq<char>,
    pub target: TargetView,
    pub created_at: TimeView,
}

impl View for DistributedTimerSpec {
    type V = DistributedSpecView;

    open spec fn view(&self) -> DistributedSpecView {
        DistributedSpecView {
            id: self.id@,
            tenant_id: self.tenant_id.deep_view(),
            schedule: self.schedule@,
            retry: self.retry,
            timezone: self.timezone@,
            target: self.target@,
            created_at: self.created_at@,
        }
    }
}

impl Clone for DistributedTimerSpec {
    fn clone(&self) -> (r: Self)
        ensures
            r@ == self@,
    {
        DistributedTimerSpec {
            id: self.id.clone(),
            tenant_id: copy_option(&self.tenant_id),
            schedule: self.schedule.clone(),
            retry: self.retry,
            timezone: self.timezone.clone(),
            target: self.target.clone(),
            created_at: self.created_at,
        }
    }
}

impl Duplicate for DistributedTimerSpec {
    fn duplicate(&self) -> (r: Self) {
        self.clone()
    }
}

/// A wish for a timer. Exactly one of `cron`, `every`, `after` and `at` says when.
#[derive(Debug)]
pub struct CreateTimerRequest {
    pub name: String,
    pub tenant_id: Option<String>,
    pub cron: Option<String>,
    pub every: Option<String>,
    pub after: Option<String>,
    pub at: Option<String>,
    pub timezone: Option<String>,
    pub max_attempts: Option<u32>,
    pub task: String,
    /// The text of a JSON value.
    pub payload: Option<String>,
}

/// A worker that wants to run tasks.
#[derive(Debug)]
pub struct WorkerRegisterRequest {
    pub worker_id: String,
    pub tasks: Vec<String>,
    pub lease_seconds: Option<u64>,
}

/// A worker that asks for a run.
#[derive(Debug)]
pub struct WorkerPollRequest {
    pub worker_id: String,
    pub tasks: Vec<String>,
}

/// A worker that has finished a run.
#[derive(Debug)]
pub struct RunCompleteRequest {
    pub worker_id: String,
    pub fencing_token: u64,
}

/// A worker whose run has failed.
#[derive(Debug)]
pub struct RunFailRequest {
    pub worker_id: String,
    pub fencing_token: u64,
    pub error: String,
}

/// A run as a worker gets it.
#[derive(Debug, PartialEq, Eq)]
pub struct WorkerRun {
    pub timer: String,
    pub tenant_id: Option<String>,
    pub run_id: String,
    pub task: String,
    /// The text of a JSON value.
    pub payload: String,
    pub attempt: u32,
    pub fencing_token: u64,
    pub idempotency_key: String,
}

/// A [`WorkerRun`] as a mathematical value.
pub struct WorkerRunView {
    pub timer: Seq<char>,
    pub tenant_id: Option<Seq<char>>,
    pub run_id: Seq<char>,
    pub task: Seq<char>,
    pub payload: Seq<char>,
    pub attempt: u32,
    pub fencing_token: u64,
    pub idempotency_key: Seq<char>,
}

impl View for WorkerRun {
    type V = WorkerRunView;

    open spec fn view(&self) -> WorkerRunView {
        WorkerRunView {
            timer: self.timer@,
            tenant_id: self.tenant_id.deep_view(),
            run_id: self.run_id@,
            task: self.task@,
            payload: self.payload@,
            attempt: self.attempt,
            fencing_token: self.fencing_token,
            idempotency_key: self.idempotency_key@,
        }
    }
}

impl DeepView for WorkerRun {
    type V = WorkerRunView;

    open spec fn deep_view(&self) -> WorkerRunView {
        self@
    }
}

impl Clone for WorkerRun {
    fn clone(&self) -> (r: Self)
        ensures
            r@ == self@,
    {
        WorkerRun {
            timer: self.timer.clone(),
            tenant_id: copy_option(&self.tenant_id),
            run_id: self.run_id.clone(),
            task: self.task.clone(),
            payload: self.payload.clone(),
            attempt: self.attempt,
            fencing_token: self.fencing_token,
            idempotency_key: self.idempotency_key.clone(),
        }
    }
}

/// What is shown of a timer of the server.
#[derive(Debug)]
pub struct DistributedSummary {
    pub id: String,
    pub tenant_id: Option<String>,
    pub state: TimerState,
    pub target: TimerTarget,
    pub next_run_at: Option<Timestamp>,
    pub last_status: Option<String>,
    pub fencing_token: u64,
}

/// A [`DistributedSummary`] as a mathematical value.
pub struct DistributedSummaryView {
    pub id: Seq<char>,
    pub tenant_id: Option<Seq<char>>,
    pub state: TimerState,
    pub target: TargetView,
    pub next_run_at: Option<TimeView>,
    pub last_status: Option<Seq<char>>,
    pub fencing_token: u64,
}

impl View for DistributedSummary {
    type V = DistributedSummaryView;

    open spec fn view(&self) -> DistributedSummaryView {
        DistributedSummaryView {
            id: self.id@,
            tenant_id: self.tenant_id.deep_view(),
            state: self.state,
            target: self.target@,
            next_run_at: self.next_run_at.deep_view(),
            last_status: self.last_status.deep_view(),
            fencing_token: self.fencing_token,
        }
    }
}

impl DeepView for DistributedSummary {
    type V = DistributedSummaryView;

    open spec fn deep_view(&self) -> DistributedSummaryView {
        self@
    }
}

impl Clone for DistributedSummary {
    fn clone(&self) -> (r: Self)
        ensures
            r@ == self@,
    {
        DistributedSummary {
            id: self.id.clone(),
            tenant_id: copy_option(&self.tenant_id),
            state: self.state,
            target: self.target.clone(),
            next_run_at: self.next_run_at,
            last_status: copy_option(&self.last_status),
            fencing_token: self.fencing_token,
        }
    }
}

impl Duplicate for DistributedSummary {
    fn duplicate(&self) -> (r: Self) {
        self.clone()
    }
}

/// A change of the replicated state.
#[derive(Debug)]
pub enum RaftCommand {
    CreateTimer { spec: DistributedTimerSpec, next_run_at: Option<Timestamp> },
    UpdateTimer { spec: DistributedTimerSpec, next_run_at: Option<Timestamp> },
    CancelTimer { timer_id: TimerId },
    PauseTimer { timer_id: TimerId },
    ResumeTimer { timer_id: TimerId, next_run_at: Option<Timestamp> },
    ClaimRun {
        timer_id: TimerId,
        run_id: RunId,
        worker_id: String,
        fencing_token: u64,
        attempt: u32,
        lease_deadline: Timestamp,
    },
    CompleteRun {
        run_id: RunId,
        worker_id: String,
        fencing_token: u64,
        completed_at: Timestamp,
    },
    FailRun {
        run_id: RunId,
        worker_id: String,
        fencing_token: u64,
        error: String,
        failed_at: Timestamp,
    },
    ExpireRunLease { run_id: RunId, replacement: Option<WorkerRun>, expired_at: Timestamp },
    HeartbeatWorker { worker_id: String, lease_until: Timestamp },
    RegisterWorker { worker_id: String, tasks: Vec<String>, lease_until: Timestamp },
    UnregisterWorker { worker_id: String },
    AddNode { node: NodeInfo },
    RemoveNode { node_id: String },
}

/// A [`RaftCommand`] as a mathematical value.
pub enum CommandView {
    CreateTimer { spec: DistributedSpecView, next_run_at: Option<TimeView> },
    UpdateTimer { spec: DistributedSpecView, next_run_at: Option<TimeView> },
    CancelTimer { timer_id: Seq<char> },
    PauseTimer { timer_id: Seq<char> },
    ResumeTimer { timer_id: Seq<char>, next_run_at: Option<TimeView> },
    ClaimRun {
        timer_id: Seq<char>,
        run_id: Seq<char>,
        worker_id: Seq<char>,
        fencing_token: u64,
        attempt: u32,
        lease_deadline: TimeView,
    },
    CompleteRun {
        run_id: Seq<char>,
        worker_id: Seq<char>,
        fencing_token: u64,
        completed_at: TimeView,
    },
    FailRun {
        run_id: Seq<char>,
        worker_id: Seq<char>,
        fencing_token: u64,
        error: Seq<char>,
        failed_at: TimeView,
    },
    ExpireRunLease {
        run_id: Seq<char>,
        replacement: Option<WorkerRunView>,
        expired_at: TimeView,
    },
    HeartbeatWorker { worker_id: Seq<char>, lease_until: TimeView },
    RegisterWorker { worker_id: Seq<char>, tasks: Seq<Seq<char>>, lease_until: TimeView },
    UnregisterWorker { worker_id: Seq<char> },
    AddNode { node: NodeView },
    RemoveNode { node_id: Seq<char> },
}

impl View for RaftCommand {
    type V = CommandView;

    open spec fn view(&self) -> CommandView {
        match self {
            RaftCommand::CreateTimer { spec, next_run_at } => CommandView::CreateTimer {
                spec: spec@,
                next_run_at: next_run_at.deep_view(),
            },
            RaftCommand::UpdateTimer { spec, next_run_at } => CommandView::UpdateTimer {
                spec: spec@,
                next_run_at: next_run_at.deep_view(),
            },
            RaftCommand::CancelTimer { timer_id } => CommandView::CancelTimer {
                timer_id: timer_id@,
            },
            RaftCommand::PauseTimer { timer_id } => CommandView::PauseTimer { timer_id: timer_id@ },
            RaftCommand::ResumeTimer { timer_id, next_run_at } => CommandView::ResumeTimer {
                timer_id: timer_id@,
                next_run_at: next_run_at.deep_view(),
            },
            RaftCommand::ClaimRun {
                timer_id,
                run_id,
                worker_id,
                fencing_token,
                attempt,
                lease_deadline,
            } => CommandView::ClaimRun {
                timer_id: timer_id@,
                run_id: run_id@,
                worker_id: worker_id@,
                fencing_token: *fencing_token,
                attempt: *attempt,
                lease_deadline: lease_deadline@,
            },
            RaftCommand::CompleteRun { run_id, worker_id, fencing_token, completed_at } =>
            CommandView::CompleteRun {
                run_id: run_id@,
                worker_id: worker_id@,
                fencing_token: *fencing_token,
                completed_at: completed_at@,
            },
            RaftCommand::FailRun { run_id, worker_id, fencing_token, error, failed_at } =>
            CommandView::FailRun {
                run_id: run_id@,
                worker_id: worker_id@,
                fencing_token: *fencing_token,
                error: error@,
                failed_at: failed_at@,
            },
            RaftCommand::ExpireRunLease { run_id, replacement, expired_at } =>
            CommandView::ExpireRunLease {
                run_id: run_id@,
                replacement: replacement.deep_view(),
                expired_at: expired_at@,
            },
            RaftCommand::HeartbeatWorker { worker_id, lease_until } =>
            CommandView::HeartbeatWorker { worker_id: worker_id@, lease_until: lease_until@ },
            RaftCommand::RegisterWorker { worker_id, tasks, lease_until } =>
            CommandView::RegisterWorker {
                worker_id: worker_id@,
                tasks: tasks.deep_view(),
                lease_until: lease_until@,
            },
            RaftCommand::UnregisterWorker { worker_id } => CommandView::UnregisterWorker {
                worker_id: worker_id@,
            },
            RaftCommand::AddNode { node } => CommandView::AddNode { node: node@ },
            RaftCommand::RemoveNode { node_id } => CommandView::RemoveNode { node_id: node_id@ },
        }
    }
}

impl DeepView for RaftCommand {
    type V = CommandView;

    open spec fn deep_view(&self) -> CommandView {
        self@
    }
}

impl Clone for RaftCommand {
    fn clone(&self) -> (r: Self)
        ensures
            r@ == self@,
    {
        match self {
            RaftCommand::CreateTimer { spec, next_run_at } => RaftCommand::CreateTimer {
                spec: spec.clone(),
                next_run_at: *next_run_at,
            },
            RaftCommand::UpdateTimer { spec, next_run_at } => RaftCommand::UpdateTimer {
                spec: spec.clone(),
                next_run_at: *next_run_at,
            },
            RaftCommand::CancelTimer { timer_id } => RaftCommand::CancelTimer {
                timer_id: timer_id.clone(),
            },
            RaftCommand::PauseTimer { timer_id } => RaftCommand::PauseTimer {
                timer_id: timer_id.clone(),
            },
            RaftCommand::ResumeTimer { timer_id, next_run_at } => RaftCommand::ResumeTimer {
                timer_id: timer_id.clone(),
                next_run_at: *next_run_at,
            },
            RaftCommand::ClaimRun {
                timer_id,
                run_id,
                worker_id,
                fencing_token,
                attempt,
                lease_deadline,
            } => RaftCommand::ClaimRun {
                timer_id: timer_id.clone(),
                run_id: run_id.clone(),
                worker_id: worker_id.clone(),
                fencing_token: *fencing_token,
                attempt: *attempt,
                lease_deadline: *lease_deadline,
            },
            RaftCommand::CompleteRun { run_id, worker_id, fencing_token, completed_at } =>
            RaftCommand::CompleteRun {
                run_id: run_id.clone(),
                worker_id: worker_id.clone(),
                fencing_token: *fencing_token,
                completed_at: *completed_at,
            },
            RaftCommand::FailRun { run_id, worker_id, fencing_token, error, failed_at } =>
            RaftCommand::FailRun {
                run_id: run_id.clone(),
                worker_id: worker_id.clone(),
                fencing_token: *fencing_token,
                error: error.clone(),
                failed_at: *failed_at,
            },
            RaftCommand::ExpireRunLease { run_id, replacement, expired_at } =>
            RaftCommand::ExpireRunLease {
                run_id: run_id.clone(),
                replacement: match replacement {
                    Some(run) => Some(run.clone()),
                    None => None,
                },
                expired_at: *expired_at,
            },
            RaftCommand::HeartbeatWorker { worker_id, lease_until } =>
            RaftCommand::HeartbeatWorker {
                worker_id: worker_id.clone(),
                lease_until: *lease_until,
            },
            RaftCommand::RegisterWorker { worker_id, tasks, lease_until } =>
            RaftCommand::RegisterWorker {
                worker_id: worker_id.clone(),
                tasks: copy_texts(tasks),
                lease_until: *lease_until,
            },
            RaftCommand::UnregisterWorker { worker_id } => RaftCommand::UnregisterWorker {
                worker_id: worker_id.clone(),
            },
            RaftCommand::AddNode { node } => RaftCommand::AddNode { node: node.clone() },
            RaftCommand::RemoveNode { node_id } => RaftCommand::RemoveNode {
                node_id: node_id.clone(),
            },
        }
    }
}

/// A run that a worker has claimed and not finished.
#[derive(Debug, PartialEq, Eq)]
pub struct PersistedActiveRun {
    pub timer_id: TimerId,
    pub run_id: RunId,
    pub worker_id: String,
    pub fencing_token: u64,
    pub attempt: u32,
    pub lease_deadline: Timestamp,
}

/// A [`PersistedActiveRun`] as a mathematical value.
pub struct ActiveRunView {
    pub timer_id: Seq<char>,
    pub run_id: Seq<char>,
    pub worker_id: Seq<char>,
    pub fencing_token: u64,
    pub attempt: u32,
    pub lease_deadline: TimeView,
}

impl View for PersistedActiveRun {
    type V = ActiveRunView;

    open spec fn view(&self) -> ActiveRunView {
        ActiveRunView {
            timer_id: self.timer_id@,
            run_id: self.run_id@,
            worker_id: self.worker_id@,
            fencing_token: self.fencing_token,
            attempt: self.attempt,
            lease_deadline: self.lease_deadline@,
        }
    }
}

impl Clone for PersistedActiveRun {
    fn clone(&self) -> (r: Self)
        ensures
            r@ == self@,
    {
        PersistedActiveRun {
            timer_id: self.timer_id.clone(),
            run_id: self.run_id.clone(),
            worker_id: self.worker_id.clone(),
            fencing_token: self.fencing_token,
            attempt: self.attempt,
            lease_deadline: self.lease_deadline,
        }
    }
}

impl Duplicate for PersistedActiveRun {
    fn duplicate(&self) -> (r: Self) {
        self.clone()
    }
}

/// What an entry of the history tells.
#[derive(Debug, Clone, Copy, PartialEq, Eq, Structural)]
pub enum HistoryKind {
    TimerCreated,
    RunClaimed,
    RunSucceeded,
    RunFailed,
    RunLeaseExpired,
    RunDead,
    WorkerRegistered,
    WorkerHeartbeat,
    WorkerLost,
}

impl HistoryKind {
    /// The name of the kind.
    pub open spec fn text(self) -> Seq<char> {
        match self {
            HistoryKind::TimerCreated => "TIMER_CREATED"@,
            HistoryKind::RunClaimed => "RUN_CLAIMED"@,
            HistoryKind::RunSucceeded => "RUN_SUCCEEDED"@,
            HistoryKind::RunFailed => "RUN_FAILED"@,
            HistoryKind::RunLeaseExpired => "RUN_LEASE_EXPIRED"@,
            HistoryKind::RunDead => "RUN_DEAD"@,
            HistoryKind::WorkerRegistered => "WORKER_REGISTERED"@,
            HistoryKind::WorkerHeartbeat => "WORKER_HEARTBEAT"@,
            HistoryKind::WorkerLost => "WORKER_LOST"@,
        }
    }

    /// The name of the kind.
    pub fn name(&self) -> (r: &'static str)
        ensures
            r@ == self.text(),
    {
        match self {
            HistoryKind::TimerCreated => "TIMER_CREATED",
            HistoryKind::RunClaimed => "RUN_CLAIMED",
            HistoryKind::RunSucceeded => "RUN_SUCCEEDED",
            HistoryKind::RunFailed => "RUN_FAILED",
            HistoryKind::RunLeaseExpired => "RUN_LEASE_EXPIRED",
            HistoryKind::RunDead => "RUN_DEAD",
            HistoryKind::WorkerRegistered => "WORKER_REGISTERED",
            HistoryKind::WorkerHeartbeat => "WORKER_HEARTBEAT",
            HistoryKind::WorkerLost => "WORKER_LOST",
        }
    }
}

/// An entry of the history of a server.
#[derive(Debug, PartialEq, Eq)]
pub struct HistoryEntry {
    pub kind: HistoryKind,
    pub timer: Option<String>,
    pub tenant_id: Option<String>,
    pub run_id: Option<String>,
    pub worker_id: Option<String>,
    pub fencing_token: Option<u64>,
    pub error: Option<String>,
    pub ts: Option<Timestamp>,
}

/// A [`HistoryEntry`] as a mathematical value.
pub struct HistoryView {
    pub kind: HistoryKind,
    pub timer: Option<Seq<char>>,
    pub tenant_id: Option<Seq<char>>,
    pub run_id: Option<Seq<char>>,
    pub worker_id: Option<Seq<char>>,
    pub fencing_token: Option<u64>,
    pub error: Option<Seq<char>>,
    pub ts: Option<TimeView>,
}

impl View for HistoryEntry {
    type V = HistoryView;

    open spec fn view(&self) -> HistoryView {
        HistoryView {
            kind: self.kind,
            timer: self.timer.deep_view(),
            tenant_id: self.tenant_id.deep_view(),
            run_id: self.run_id.deep_view(),
            worker_id: self.worker_id.deep_view(),
            fencing_token: self.fencing_token,
            error: self.error.deep_view(),
            ts: self.ts.deep_view(),
        }
    }
}

impl DeepView for HistoryEntry {
    type V = HistoryView;

    open spec fn deep_view(&self) -> HistoryView {
        self@
    }
}

impl Clone for HistoryEntry {
    fn clone(&self) -> (r: Self)
        ensures
            r@ == self@,
    {
        HistoryEntry {
            kind: self.kind,
            timer: copy_option(&self.timer),
            tenant_id: copy_option(&self.tenant_id),
            run_id: copy_option(&self.run_id),
            worker_id: copy_option(&self.worker_id),
            fencing_token: self.fencing_token,
            error: copy_option(&self.error),
            ts: self.ts,
        }
    }
}

impl HistoryView {
    /// An entry of the kind that tells nothing else.
    pub open spec fn bare(kind: HistoryKind) -> HistoryView {
        HistoryView {
            kind,
            timer: None,
            tenant_id: None,
            run_id: None,
            worker_id: None,
            fencing_token: None,
            error: None,
            ts: None,
        }
    }
}

impl HistoryEntry {
    /// An entry of the kind that tells nothing else.
    pub fn bare(kind: HistoryKind) -> (r: Self)
        ensures
            r@ == HistoryView::bare(kind),
    {
        HistoryEntry {
            kind,
            timer: None,
            tenant_id: None,
            run_id: None,
            worker_id: None,
            fencing_token: None,
            error: None,
            ts: None,
        }
    }
}

/// The name of the kind of the latest entry about a timer.
pub open spec fn latest_kind(history: Seq<HistoryView>, timer: Seq<char>) -> Option<Seq<char>>
    decreases history.len(),
{
    if history.len() == 0 {
        None
    } else if history.last().timer == Some(timer) {
        Some(history.last().kind.text())
    } else {
        latest_kind(history.drop_last(), timer)
    }
}

/// The name of the kind of the latest entry about a timer.
pub fn last_status(history: &Vec<HistoryEntry>, timer: &str) -> (r: Option<String>)
    ensures
        r.deep_view() == latest_kind(history.deep_view(), timer@),
{
    let ghost all = history.deep_view();
    let mut i: usize = history.len();
    assert(all.take(all.len() as int) == all);
    while i > 0
        invariant
            i <= history@.len(),
            all == history.deep_view(),
            latest_kind(all, timer@) == latest_kind(all.take(i as int), timer@),
        decreases i,
    {
        proof {
            assert(all.take(i as int).last() == history@[i - 1]@);
            assert(all.take(i as int).drop_last() == all.take(i - 1));
        }
        let about = match &history[i - 1].timer {
            Some(name) => crate::text::same(name, timer),
            None => false,
        };
        if about {
            return Some(history[i - 1].kind.name().to_string());
        }
        i = i - 1;
    }
    None
}

/// The entries about a timer, in order.
pub open spec fn history_of(history: Seq<HistoryView>, timer: Seq<char>) -> Seq<HistoryView>
    decreases history.len(),
{
    if history.len() == 0 {
        Seq::empty()
    } else {
        let front = history_of(history.drop_last(), timer);
        if history.last().timer == Some(timer) {
            front.push(history.last())
        } else {
            front
        }
    }
}

/// The entries about a timer, in order.
pub fn entries_about(history: &Vec<HistoryEntry>, timer: &str) -> (r: Vec<HistoryEntry>)
    ensures
        r.deep_view() == history_of(history.deep_view(), timer@),
{
    let ghost all = history.deep_view();
    let mut out: Vec<HistoryEntry> = Vec::new();
    let mut i: usize = 0;
    assert(all.take(0) == Seq::<HistoryView>::empty());
    assert(out.deep_view() =~= history_of(all.take(0), timer@));
    while i < history.len()
        invariant
            i <= history@.len(),
            all == history.deep_view(),
            out.deep_view() == history_of(all.take(i as int), timer@),
        decreases history@.len() - i,
    {
        let ghost front = out.deep_view();
        proof {
            assert(all.take(i + 1).drop_last() == all.take(i as int));
            assert(all.take(i + 1).last() == history@[i as int]@);
        }
        let about = match &history[i].timer {
            Some(name) => crate::text::same(name, timer),
            None => false,
        };
        if about {
            out.push(history[i].clone());
            assert(out.deep_view() =~= front.push(history@[i as int]@));
        }
        i = i + 1;
    }
    assert(all.take(all.len() as int) == all);
    out
}

/// A copy of a list of texts.
pub fn copy_texts(texts: &Vec<String>) -> (r: Vec<String>)
    ensures
        r.deep_view() == texts.deep_view(),
{
    let mut out: Vec<String> = Vec::new();
    let mut i: usize = 0;
    while i < texts.len()
        invariant
            i <= texts@.len(),
            out@.len() == i,
            forall|k: int| 0 <= k < i ==> (#[trigger] out@[k])@ == texts@[k]@,
        decreases texts@.len() - i,
    {
        out.push(texts[i].clone());
        i = i + 1;
    }
    assert(out.deep_view() =~= texts.deep_view());
    out
}

/// Whether a list holds a text.
pub fn holds_text(texts: &Vec<String>, wanted: &str) -> (r: bool)
    ensures
        r == texts.deep_view().contains(wanted@),
{
    let ghost all = texts.deep_view();
    let mut i: usize = 0;
    while i < texts.len()
        invariant
            i <= texts@.len(),
            all == texts.deep_view(),
            forall|k: int| 0 <= k < i ==> #[trigger] all[k] != wanted@,
        decreases texts@.len() - i,
    {
        assert(all[i as int] == texts@[i as int]@);
        if crate::text::same(&texts[i], wanted) {
            assert(all.contains(wanted@));
            return true;
        }
        i = i + 1;
    }
    false
}

/// A [`CreateTimerRequest`] as a mathematical value.
pub struct RequestView {
    pub name: Seq<char>,
    pub tenant_id: Option<Seq<char>>,
    pub cron: Option<Seq<char>>,
    pub every: Option<Seq<char>>,
    pub after: Option<Seq<char>>,
    pub at: Option<Seq<char>>,
    pub timezone: Option<Seq<char>>,
    pub max_attempts: Option<u32>,
    pub task: Seq<char>,
    pub payload: Option<Seq<char>>,
}

impl View for CreateTimerRequest {
    type V = RequestView;

    open spec fn view(&self) -> RequestView {
        RequestView {
            name: self.name@,
            tenant_id: self.tenant_id.deep_view(),
            cron: self.cron.deep_view(),
            every: self.every.deep_view(),
            after: self.after.deep_view(),
            at: self.at.deep_view(),
            timezone: self.timezone.deep_view(),
            max_attempts: self.max_attempts,
            task: self.task@,
            payload: self.payload.deep_view(),
        }
    }
}

/// One for something, zero for nothing.
pub open spec fn counted(text: Option<Seq<char>>) -> nat {
    if text is Some {
        1
    } else {
        0
    }
}

/// The schedule that is described by exactly one of four texts.
pub open spec fn chosen_schedule(
    cron: Option<Seq<char>>,
    every: Option<Seq<char>>,
    after: Option<Seq<char>>,
    at: Option<Seq<char>>,
    now: TimeView,
) -> Result<ScheduleView, KronErrorView> {
    if !one_chosen(cron, every, after, at) {
        Err(KronErrorView::InvalidCron("expected exactly one of cron, every, after, at"@))
    } else if cron is Some {
        Ok(ScheduleView::Cron { expr: cron->0 })
    } else if every is Some {
        match crate::schedule::parsed_duration(every->0) {
            Ok(seconds) => Ok(ScheduleView::Every { seconds: seconds as u64 }),
            Err(error) => Err(error),
        }
    } else if after is Some {
        match crate::schedule::parsed_duration(after->0) {
            Ok(seconds) => Ok(
                ScheduleView::After { seconds: seconds as u64, registered_at: now },
            ),
            Err(error) => Err(error),
        }
    } else {
        match crate::timestamp::rfc3339_instant(at->0) {
            Ok((secs, nanos)) => Ok(ScheduleView::At { at: TimeView { secs, nanos } }),
            Err(reason) => Err(KronErrorView::InvalidCron("invalid at datetime: "@ + reason)),
        }
    }
}

/// Whether exactly one of four texts describes a schedule.
pub open spec fn one_chosen(
    cron: Option<Seq<char>>,
    every: Option<Seq<char>>,
    after: Option<Seq<char>>,
    at: Option<Seq<char>>,
) -> bool {
    counted(cron) + counted(every) + counted(after) + counted(at) == 1
}

/// Whether the schedule of four texts can be read: its duration stays within 64 bits.
pub open spec fn choice_reads(
    cron: Option<Seq<char>>,
    every: Option<Seq<char>>,
    after: Option<Seq<char>>,
    at: Option<Seq<char>>,
) -> bool {
    one_chosen(cron, every, after, at) ==> {
        &&& every is Some ==> crate::schedule::duration_fits(every->0)
        &&& after is Some ==> crate::schedule::duration_fits(after->0)
    }
}

/// Whether the first run of the schedule of four texts can be computed in the time zone.
pub open spec fn choice_runs(
    cron: Option<Seq<char>>,
    every: Option<Seq<char>>,
    after: Option<Seq<char>>,
    at: Option<Seq<char>>,
    timezone: Seq<char>,
    now: TimeView,
) -> bool {
    one_chosen(cron, every, after, at) ==> {
        &&& cron is Some ==> crate::schedule::cron_searchable_in(now, timezone)
        &&& every is Some ==> duration_runs(every->0, now)
        &&& after is Some ==> duration_runs(after->0, now)
    }
}

/// Whether the instant that a duration leads to can be represented.
pub open spec fn duration_runs(text: Seq<char>, now: TimeView) -> bool {
    match crate::schedule::parsed_duration(text) {
        Ok(seconds) => now.can_add(seconds as u64 as int),
        Err(_) => true,
    }
}

impl RequestView {
    /// The schedule of the timer, if the request says when it fires.
    pub open spec fn schedule(self, now: TimeView) -> Result<ScheduleView, KronErrorView> {
        chosen_schedule(self.cron, self.every, self.after, self.at, now)
    }

    /// The name of the time zone of the timer.
    pub open spec fn zone(self) -> Seq<char> {
        match self.timezone {
            Some(name) => name,
            None => "UTC"@,
        }
    }

    /// The timer that is asked for, with the given schedule.
    pub open spec fn timer(self, schedule: ScheduleView, now: TimeView) -> DistributedSpecView {
        DistributedSpecView {
            id: self.name,
            tenant_id: self.tenant_id,
            schedule,
            retry: RetryPolicy {
                max_attempts: match self.max_attempts {
                    Some(n) => n,
                    None => 3,
                },
                backoff: BackoffStrategy::Exponential { base_seconds: 30, max_seconds: 3600 },
            },
            timezone: self.zone(),
            target: TargetView::WorkerTask {
                task: self.task,
                payload: match self.payload {
                    Some(value) => value,
                    None => "null"@,
                },
            },
            created_at: now,
        }
    }

    /// Whether the schedule can be read: its duration stays within 64 bits.
    pub open spec fn can_read(self) -> bool {
        choice_reads(self.cron, self.every, self.after, self.at)
    }

    /// Whether the next run of the timer that is asked for can be computed.
    pub open spec fn can_create(self, now: TimeView) -> bool {
        self.can_read() && choice_runs(
            self.cron,
            self.every,
            self.after,
            self.at,
            self.zone(),
            now,
        )
    }

    /// The command that creates the timer that is asked for, or why there is none.
    pub open spec fn creation(self, now: TimeView) -> Result<CommandView, KronErrorView> {
        match self.schedule(now) {
            Err(error) => Err(error),
            Ok(schedule) => {
                let spec = self.timer(schedule, now);
                match schedule.next(now, spec.timezone) {
                    Err(error) => Err(error),
                    Ok(next_run_at) => Ok(CommandView::CreateTimer { spec, next_run_at }),
                }
            },
        }
    }
}

/// The view of a schedule or of the error in its place.
pub open spec fn schedule_view(r: Result<Schedule, KronError>) -> Result<
    ScheduleView,
    KronErrorView,
> {
    match r {
        Ok(schedule) => Ok(schedule@),
        Err(error) => Err(error@),
    }
}

/// The view of a command or of the error in its place.
pub open spec fn command_view(r: Result<RaftCommand, KronError>) -> Result<
    CommandView,
    KronErrorView,
> {
    match r {
        Ok(command) => Ok(command@),
        Err(error) => Err(error@),
    }
}

/// Reads the schedule that is described by exactly one of four texts.
pub fn choose_schedule(
    cron: &Option<String>,
    every: &Option<String>,
    after: &Option<String>,
    at: &Option<String>,
    now: Timestamp,
) -> (r: Result<Schedule, KronError>)
    requires
        choice_reads(cron.deep_view(), every.deep_view(), after.deep_view(), at.deep_view()),
    ensures
        schedule_view(r) == chosen_schedule(
            cron.deep_view(),
            every.deep_view(),
            after.deep_view(),
            at.deep_view(),
            now@,
        ),
{
    match (cron, every, after, at) {
        (Some(expr), None, None, None) => Ok(Schedule::Cron { expr: expr.clone() }),
        (None, Some(text), None, None) => match parse_duration_str(text) {
            Ok(seconds) => Ok(Schedule::Every { seconds }),
            Err(error) => Err(error),
        },
        (None, None, Some(text), None) => match parse_duration_str(text) {
            Ok(seconds) => Ok(Schedule::After { seconds, registered_at: now }),
            Err(error) => Err(error),
        },
        (None, None, None, Some(text)) => match parse_rfc3339(text) {
            Ok(at) => Ok(Schedule::At { at }),
            Err(reason) => Err(KronError::InvalidCron(concat("invalid at datetime: ", &reason))),
        },
        _ => Err(
            KronError::InvalidCron("expected exactly one of cron, every, after, at".to_string()),
        ),
    }
}

/// The schedule of the timer that is asked for.
pub fn parse_request_schedule(request: &CreateTimerRequest, now: Timestamp) -> (r: Result<
    Schedule,
    KronError,
>)
    requires
        request@.can_read(),
    ensures
        schedule_view(r) == request@.schedule(now@),
{
    choose_schedule(&request.cron, &request.every, &request.after, &request.at, now)
}

/// Whether the schedule of four texts can be read and its first run computed in the time
/// zone.
pub fn choice_fits(
    cron: &Option<String>,
    every: &Option<String>,
    after: &Option<String>,
    at: &Option<String>,
    timezone: &str,
    now: Timestamp,
) -> (r: bool)
    ensures
        r == (choice_reads(
            cron.deep_view(),
            every.deep_view(),
            after.deep_view(),
            at.deep_view(),
        ) && choice_runs(
            cron.deep_view(),
            every.deep_view(),
            after.deep_view(),
            at.deep_view(),
            timezone@,
            now@,
        )),
{
    match (cron, every, after, at) {
        (Some(expr), None, None, None) => (Schedule::Cron { expr: expr.clone() }).fits(
            now,
            timezone,
        ),
        (None, Some(text), None, None) => duration_leads_on(text, now),
        (None, None, Some(text), None) => duration_leads_on(text, now),
        _ => true,
    }
}

/// Whether a duration stays within 64 bits and the instant that it leads to can be
/// represented.
fn duration_leads_on(text: &str, now: Timestamp) -> (r: bool)
    ensures
        r == (crate::schedule::duration_fits(text@) && duration_runs(text@, now@)),
{
    if !duration_str_fits(text) {
        return false;
    }
    match parse_duration_str(text) {
        Ok(seconds) => now.plus_seconds(seconds).is_some(),
        Err(_) => true,
    }
}

/// Whether the next run of the timer that is asked for can be computed.
pub fn creation_fits(request: &CreateTimerRequest, now: Timestamp) -> (r: bool)
    ensures
        r == request@.can_create(now@),
{
    let zone = match &request.timezone {
        Some(name) => name.as_str(),
        None => "UTC",
    };
    choice_fits(&request.cron, &request.every, &request.after, &request.at, zone, now)
}

/// The command that creates the timer that is asked for.
pub fn creation_of(request: &CreateTimerRequest, now: Timestamp) -> (r: Result<
    RaftCommand,
    KronError,
>)
    requires
        request@.can_create(now@),
    ensures
        command_view(r) == request@.creation(now@),
{
    let schedule = match parse_request_schedule(request, now) {
        Ok(schedule) => schedule,
        Err(error) => {
            return Err(error);
        },
    };
    let mut retry = RetryPolicy::default();
    if let Some(n) = request.max_attempts {
        retry.max_attempts = n;
    }
    let spec = DistributedTimerSpec {
        id: TimerId::new(&request.name),
        tenant_id: copy_option(&request.tenant_id),
        schedule,
        retry,
        timezone: match &request.timezone {
            Some(name) => name.clone(),
            None => "UTC".to_string(),
        },
        target: TimerTarget::WorkerTask {
            task: request.task.clone(),
            payload: match &request.payload {
                Some(value) => value.clone(),
                None => "null".to_string(),
            },
        },
        created_at: now,
    };
    match spec.schedule.next_run_after(now, &spec.timezone) {
        Ok(next_run_at) => Ok(RaftCommand::CreateTimer { spec, next_run_at }),
        Err(error) => Err(error),
    }
}

} // verus!
