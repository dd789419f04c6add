//! The server that keeps its commands in a file: its timers, its workers and its runs.

use vstd::prelude::*;

use crate::cluster::{
    CommandView,
    ConfigView,
    DistributedSpecView,
    HistoryKind,
    NodeView,
    TargetView,
};
use crate::cluster_engine::{ClusterState, ClusterView};
use crate::error::KronErrorView;
use crate::schedule::ScheduleView;
use crate::timer::TimerState;
use crate::timestamp::TimeView;

verus! {

/// A timer that is taken up is kept with its whole specification, is scheduled, and has the
/// next run that its schedule gives in its zone; that is noted with the time. A schedule
/// that gives none for an error is refused with the error.
pub proof fn timer_is_taken_up(
    server: ClusterView,
    spec: DistributedSpecView,
    next_run_at: Option<TimeView>,
    now: TimeView,
    tick: u64,
)
    ensures
        ({
            let created = server.apply(CommandView::CreateTimer { spec, next_run_at }, now, tick);
            let updated = server.apply(CommandView::UpdateTimer { spec, next_run_at }, now, tick);
            let next = spec.schedule.next(now, spec.timezone);
            &&& created == updated
            &&& next is Err ==> created == Err::<ClusterView, _>(next->Err_0)
            &&& next is Ok ==> created is Ok && {
                let after = created->Ok_0;
                &&& after.timers.dom() == server.timers.dom().insert(spec.id)
                &&& after.timers[spec.id] == spec
                &&& after.states[spec.id] == TimerState::Scheduled
                &&& next->Ok_0 is Some ==> after.next_runs.dom().contains(spec.id)
                    && after.next_runs[spec.id] == next->Ok_0->0
                &&& next->Ok_0 is None ==> after.next_runs == server.next_runs
                &&& after.history.drop_last() == server.history
                &&& after.history.last().kind == HistoryKind::TimerCreated
                &&& after.history.last().timer == Some(spec.id)
                &&& after.history.last().ts == Some(now)
                &&& after.pending == server.pending
                &&& after.active_runs == server.active_runs
                &&& after.fencing == server.fencing
                &&& after.workers == server.workers
                &&& after.config == server.config
            }
        }),
{
    let created = server.apply(CommandView::CreateTimer { spec, next_run_at }, now, tick);
    if created is Ok {
        assert(created->Ok_0.timers.dom() =~= server.timers.dom().insert(spec.id));
        assert(created->Ok_0.history.drop_last() =~= server.history);
    }
}

/// A timer that is cancelled or paused is so and has no next run. One that is resumed is
/// scheduled and has the next run that its schedule gives from then on.
pub proof fn timer_is_stopped_and_resumed(
    server: ClusterView,
    timer_id: Seq<char>,
    next_run_at: Option<TimeView>,
    now: TimeView,
    tick: u64,
)
    requires
        server.timers.dom().contains(timer_id),
    ensures
        ({
            let cancelled = server.apply(CommandView::CancelTimer { timer_id }, now, tick);
            let paused = server.apply(CommandView::PauseTimer { timer_id }, now, tick);
            let resumed = server.apply(
                CommandView::ResumeTimer { timer_id, next_run_at },
                now,
                tick,
            );
            let spec = server.timers[timer_id];
            let next = crate::state::found(resumed->Ok_0.next_runs, timer_id);
            &&& cancelled is Ok && paused is Ok && resumed is Ok
            &&& cancelled->Ok_0.states[timer_id] == TimerState::Cancelled
            &&& paused->Ok_0.states[timer_id] == TimerState::Paused
            &&& resumed->Ok_0.states[timer_id] == TimerState::Scheduled
            &&& !cancelled->Ok_0.next_runs.dom().contains(timer_id)
            &&& !paused->Ok_0.next_runs.dom().contains(timer_id)
            &&& match spec.schedule.next(now, spec.timezone) {
                Ok(at) => next == at,
                Err(_) => next is None,
            }
            &&& cancelled->Ok_0.timers == server.timers && paused->Ok_0.timers == server.timers
                && resumed->Ok_0.timers == server.timers
            &&& cancelled->Ok_0.active_runs == server.active_runs && paused->Ok_0.active_runs
                == server.active_runs
        }),
{
}

/// A due timer gets a run that waits for a worker, with its task, its payload and its
/// tenant, as a first attempt under a token one above the last; unless one waits or is
/// active already, or the timer is not one for workers.
pub proof fn due_timer_gets_a_run(
    server: ClusterView,
    id: Seq<char>,
    run_id: Seq<char>,
    task: Seq<char>,
    payload: Seq<char>,
)
    requires
        server.timers.dom().contains(id),
        server.token_of(id) < u64::MAX,
    ensures
        ({
            let after = server.enqueued(id, run_id);
            let target = server.timers[id].target;
            let idle = !server.is_pending(id) && !server.is_active(id);
            let at = server.next_runs[id];
            &&& !idle || !(target is WorkerTask) ==> after == server
            &&& idle && target == (TargetView::WorkerTask { task, payload }) ==> {
                let run = after.pending.last();
                &&& after.pending.drop_last() == server.pending
                &&& run.timer == id && run.run_id == run_id
                &&& run.task == task && run.payload == payload
                &&& run.tenant_id == server.timers[id].tenant_id
                &&& run.attempt == 1
                &&& run.fencing_token == server.token_of(id) + 1
                &&& after.token_of(id) == run.fencing_token
                &&& run.idempotency_key == id + ":"@ + crate::timestamp::rfc3339_text(
                    at.secs,
                    at.nanos,
                )
                &&& after.states[id] == TimerState::Scheduled
                &&& after.active_runs == server.active_runs
                &&& after.next_runs == server.next_runs
                &&& after.history == server.history
            }
        }),
{
    let after = server.enqueued(id, run_id);
    if after != server {
        assert(after.pending.drop_last() =~= server.pending);
    }
}

/// A timer is due exactly when the time of its next run has come, a worker is silent exactly
/// when its lease has ended, and a run is abandoned exactly when its lease has expired or
/// its worker was given up.
pub proof fn due_silent_and_abandoned_mean(
    server: ClusterView,
    id: Seq<char>,
    now: TimeView,
    tick: u64,
)
    ensures
        (server.due(now))(id) <==> !now.before(server.next_runs[id]),
        (server.silent(tick))(id) <==> server.workers[id].lease_until < tick,
        (server.abandoned(now))(id) <==> !now.before(server.active_runs[id].lease_deadline)
            || !server.workers.dom().contains(server.active_runs[id].worker_id),
{
}

/// The keys that are wanted of an order are all of them and no others, in the order.
pub proof fn wanted_keys_are_all(
    keys: Seq<Seq<char>>,
    wanted: spec_fn(Seq<char>) -> bool,
    key: Seq<char>,
)
    ensures
        ({
            let found = crate::cluster_engine::keys_where(keys, wanted);
            let longer = crate::cluster_engine::keys_where(keys.push(key), wanted);
            &&& crate::cluster_engine::keys_where(Seq::empty(), wanted).len() == 0
            &&& wanted(key) ==> longer == found.push(key)
            &&& !wanted(key) ==> longer == found
        }),
{
    assert(keys.push(key).drop_last() =~= keys);
}

/// A worker is given a run that waits if it asks for its task and, where it is registered,
/// is registered for it.
pub proof fn run_suits_the_worker(
    server: ClusterView,
    worker_id: Seq<char>,
    tasks: Seq<Seq<char>>,
    i: int,
)
    requires
        0 <= i < server.pending.len(),
    ensures
        server.suits(worker_id, tasks, i) <==> {
            &&& tasks.contains(server.pending[i].task)
            &&& server.workers.dom().contains(worker_id) ==> server.workers[worker_id].tasks.contains(
                server.pending[i].task,
            )
        },
{
}

/// The run that a worker is given is the one that waited, as it stood: the worker holds it
/// under its token until the deadline, as its attempt; it no longer waits, its timer runs,
/// and the claim is noted.
pub proof fn given_run_is_the_one_that_waited(
    server: ClusterView,
    worker_id: Seq<char>,
    at: int,
    deadline: TimeView,
    now: TimeView,
)
    requires
        0 <= at < server.pending.len(),
    ensures
        ({
            let run = server.pending[at];
            let command = server.claim(worker_id, at, deadline);
            let after = server.claimed(worker_id, at, deadline, now);
            let active = after.active_runs[run.run_id];
            &&& command == (CommandView::ClaimRun {
                timer_id: run.timer,
                run_id: run.run_id,
                worker_id,
                fencing_token: run.fencing_token,
                attempt: run.attempt,
                lease_deadline: deadline,
            })
            &&& after.active_runs.dom() == server.active_runs.dom().insert(run.run_id)
            &&& active.timer_id == run.timer && active.run_id == run.run_id
            &&& active.worker_id == worker_id && active.fencing_token == run.fencing_token
            &&& active.attempt == run.attempt && active.lease_deadline == deadline
            &&& after.pending == server.pending.remove(at)
            &&& after.states[run.timer] == TimerState::Running
            &&& after.history.drop_last() == server.history
            &&& after.history.last().kind == HistoryKind::RunClaimed
            &&& after.history.last().timer == Some(run.timer)
            &&& after.history.last().run_id == Some(run.run_id)
            &&& after.history.last().worker_id == Some(worker_id)
            &&& after.history.last().fencing_token == Some(run.fencing_token)
            &&& after.history.last().ts == Some(now)
            &&& after.fencing == server.fencing && after.timers == server.timers
            &&& after.next_runs == server.next_runs
        }),
{
    let after = server.claimed(worker_id, at, deadline, now);
    assert(after.active_runs.dom() =~= server.active_runs.dom().insert(server.pending[at].run_id));
    assert(after.history.drop_last() =~= server.history);
}

/// A claim from the log gives the run to its worker, as it stands in the command.
pub proof fn logged_claim_gives_the_run(
    server: ClusterView,
    timer_id: Seq<char>,
    run_id: Seq<char>,
    worker_id: Seq<char>,
    fencing_token: u64,
    attempt: u32,
    lease_deadline: TimeView,
    now: TimeView,
    tick: u64,
)
    requires
        !server.is_active(timer_id),
    ensures
        ({
            let applied = server.apply(
                CommandView::ClaimRun {
                    timer_id,
                    run_id,
                    worker_id,
                    fencing_token,
                    attempt,
                    lease_deadline,
                },
                now,
                tick,
            );
            let after = applied->Ok_0;
            let active = after.active_runs[run_id];
            &&& applied is Ok
            &&& after.active_runs.dom().contains(run_id)
            &&& active.timer_id == timer_id && active.run_id == run_id
            &&& active.worker_id == worker_id && active.fencing_token == fencing_token
            &&& active.attempt == attempt && active.lease_deadline == lease_deadline
            &&& after.states[timer_id] == TimerState::Running
            &&& after.token_of(timer_id) == fencing_token
            &&& after.history.last().kind == HistoryKind::RunClaimed
            &&& after.history.last().run_id == Some(run_id)
            &&& after.history.last().worker_id == Some(worker_id)
            &&& after.timers == server.timers && after.next_runs == server.next_runs
        }),
{
}

/// A completed run is over; its timer is scheduled, and its next run is the one that the
/// schedule gives after the completion in the zone of the timer: for an interval it is the
/// interval later, and one that fired once has none.
pub proof fn completed_run_is_scheduled_again(
    server: ClusterView,
    run_id: Seq<char>,
    worker_id: Seq<char>,
    now: TimeView,
    tick: u64,
    at: TimeView,
    seconds: u64,
)
    requires
        server.active_runs.dom().contains(run_id),
        server.active_runs[run_id].worker_id == worker_id,
        server.timers.dom().contains(server.active_runs[run_id].timer_id),
        0 <= now.nanos < 1_000_000_000,
    ensures
        ({
            let active = server.active_runs[run_id];
            let spec = server.timers[active.timer_id];
            let applied = server.apply(
                CommandView::CompleteRun {
                    run_id,
                    worker_id,
                    fencing_token: active.fencing_token,
                    completed_at: at,
                },
                now,
                tick,
            );
            let after = applied->Ok_0;
            let direct = server.completed(run_id, None, now);
            let next = crate::state::found(after.next_runs, active.timer_id);
            &&& applied is Ok
            &&& !after.active_runs.dom().contains(run_id)
            &&& after.states[active.timer_id] == TimerState::Scheduled
            &&& spec.schedule == (ScheduleView::Every { seconds })
                && crate::schedule::timezone_known(spec.timezone) ==> next == Some(
                TimeView { secs: now.secs + seconds, nanos: now.nanos },
            )
            &&& spec.schedule is Cron ==> match spec.schedule.next(now, spec.timezone) {
                Ok(t) => next == t,
                Err(_) => next is None,
            }
            &&& spec.schedule is At && (spec.schedule->at).not_after(now) ==> next is None
            &&& after.history.drop_last() == server.history
            &&& after.history.last().kind == HistoryKind::RunSucceeded
            &&& after.history.last().timer == Some(active.timer_id)
            &&& after.history.last().run_id == Some(run_id)
            &&& after.history.last().worker_id == Some(worker_id)
            &&& after.history.last().fencing_token == Some(active.fencing_token)
            &&& after.history.last().ts == Some(now)
            &&& after.timers == server.timers && after.pending == server.pending
            &&& after.fencing == server.fencing
            &&& direct.active_runs == after.active_runs && direct.next_runs == after.next_runs
                && direct.states == after.states
        }),
{
    let active = server.active_runs[run_id];
    let after = server.apply(
        CommandView::CompleteRun {
            run_id,
            worker_id,
            fencing_token: active.fencing_token,
            completed_at: at,
        },
        now,
        tick,
    )->Ok_0;
    assert(after.history.drop_last() =~= server.history);
}

/// The next attempt of a run carries the task, the payload and the tenant of its timer,
/// whether the run failed or its lease expired.
pub proof fn next_attempt_carries_the_task(
    server: ClusterView,
    run_id: Seq<char>,
    by: Option<Seq<char>>,
    error: Seq<char>,
    now: TimeView,
    task: Seq<char>,
    payload: Seq<char>,
)
    requires
        server.active_runs.dom().contains(run_id),
        server.timers.dom().contains(server.active_runs[run_id].timer_id),
        server.timers[server.active_runs[run_id].timer_id].target == (TargetView::WorkerTask {
            task,
            payload,
        }),
        server.active_runs[run_id].attempt
            < server.timers[server.active_runs[run_id].timer_id].retry.max_attempts,
        server.token_of(server.active_runs[run_id].timer_id) < u64::MAX,
    ensures
        ({
            let active = server.active_runs[run_id];
            let failed = server.failed(run_id, by, error, now);
            let expired = server.expired(run_id, now);
            let (a, b) = (failed.pending.last(), expired.pending.last());
            &&& a.task == task && a.payload == payload && b.task == task && b.payload == payload
            &&& a.tenant_id == server.timers[active.timer_id].tenant_id && b.tenant_id
                == a.tenant_id
            &&& a.timer == active.timer_id && b.timer == active.timer_id
            &&& a.run_id == active.run_id && b.run_id == active.run_id
            &&& a.attempt == active.attempt + 1 && b.attempt == active.attempt + 1
            &&& a.fencing_token == server.token_of(active.timer_id) + 1 && b.fencing_token
                == a.fencing_token
            &&& failed.states[active.timer_id] == TimerState::Retrying
            &&& expired.states[active.timer_id] == TimerState::Retrying
            &&& failed.history.last().kind == HistoryKind::RunFailed
            &&& failed.history.last().error == Some(error)
            &&& failed.history.last().worker_id == by
            &&& expired.history.last().kind == HistoryKind::RunLeaseExpired
            &&& expired.history.last().worker_id == Some(active.worker_id)
            &&& !failed.active_runs.dom().contains(run_id)
            &&& !expired.active_runs.dom().contains(run_id)
        }),
{
}

/// A lease that expires with the last attempt is noted, and so is the death of the run; the
/// timer is dead. A run that is not active cannot expire.
pub proof fn last_attempt_that_expires_is_dead(
    server: ClusterView,
    run_id: Seq<char>,
    now: TimeView,
    other: Seq<char>,
)
    requires
        server.active_runs.dom().contains(run_id),
        server.timers.dom().contains(server.active_runs[run_id].timer_id),
        server.active_runs[run_id].attempt
            >= server.timers[server.active_runs[run_id].timer_id].retry.max_attempts,
        !server.active_runs.dom().contains(other),
    ensures
        ({
            let active = server.active_runs[run_id];
            let after = server.expired(run_id, now);
            let n = server.history.len() as int;
            &&& !after.active_runs.dom().contains(run_id)
            &&& after.states[active.timer_id] == TimerState::Dead
            &&& after.pending == server.pending
            &&& after.history.len() == n + 2
            &&& after.history[n].kind == HistoryKind::RunLeaseExpired
            &&& after.history[n].worker_id == Some(active.worker_id)
            &&& after.history[n].fencing_token == Some(active.fencing_token)
            &&& after.history[n + 1].kind == HistoryKind::RunDead
            &&& after.history[n + 1].run_id == Some(active.run_id)
            &&& after.history[n + 1].timer == Some(active.timer_id)
        }),
        server.expired(other, now) == server,
{
}

/// A worker that registers is known by its tasks for half a minute from then on; a heartbeat
/// moves that half minute and keeps the tasks; a worker that is lost or unregisters is no
/// longer known. All but the last are noted.
pub proof fn workers_come_and_go(
    server: ClusterView,
    worker_id: Seq<char>,
    tasks: Seq<Seq<char>>,
    lease_until: TimeView,
    now: TimeView,
    tick: u64,
)
    requires
        tick + 30_000 <= u64::MAX,
    ensures
        ({
            let here = server.apply(
                CommandView::RegisterWorker { worker_id, tasks, lease_until },
                now,
                tick,
            )->Ok_0;
            let heard = server.apply(
                CommandView::HeartbeatWorker { worker_id, lease_until },
                now,
                tick,
            )->Ok_0;
            let gone = server.apply(CommandView::UnregisterWorker { worker_id }, now, tick)->Ok_0;
            let lost = server.lost(worker_id, now);
            let known = server.workers.dom().contains(worker_id);
            &&& here.workers.dom().contains(worker_id)
            &&& here.workers[worker_id].tasks == tasks
            &&& here.workers[worker_id].lease_until == tick + 30_000
            &&& here.history.last().kind == HistoryKind::WorkerRegistered
            &&& here.history.last().worker_id == Some(worker_id)
            &&& here.history.last().ts == Some(now)
            &&& known ==> {
                &&& heard.workers[worker_id].tasks == server.workers[worker_id].tasks
                &&& heard.workers[worker_id].lease_until == tick + 30_000
                &&& heard.history.last().kind == HistoryKind::WorkerHeartbeat
                &&& heard.history.last().worker_id == Some(worker_id)
                &&& heard.history.last().ts == Some(now)
            }
            &&& !known ==> heard == server
            &&& !gone.workers.dom().contains(worker_id) && gone.history == server.history
            &&& !lost.workers.dom().contains(worker_id)
            &&& lost.history.last().kind == HistoryKind::WorkerLost
            &&& lost.history.last().worker_id == Some(worker_id)
            &&& lost.history.last().ts == Some(now)
            &&& here.active_runs == server.active_runs && lost.active_runs == server.active_runs
            &&& here.timers == server.timers && lost.timers == server.timers
        }),
        crate::cluster_engine::lease_of(None) == 30,
        forall|n: u64| #[trigger] crate::cluster_engine::lease_of(Some(n)) == n,
{
}

/// A node that joins becomes a peer with its addresses, once, and not if it is the server
/// itself; one that leaves is a peer no longer, and the others stay in their order.
pub proof fn peers_come_and_go(server: ClusterView, node: NodeView, now: TimeView, tick: u64)
    ensures
        ({
            let joined = server.apply(CommandView::AddNode { node }, now, tick)->Ok_0;
            let known = exists|k: int|
                0 <= k < server.config.peers.len() && (#[trigger] server.config.peers[k]).node_id
                    == node.node_id;
            &&& node.node_id != server.config.node_id && !known ==> joined.config.peers
                == server.config.peers.push(node)
            &&& node.node_id == server.config.node_id || known ==> joined == server
            &&& joined.config.node_id == server.config.node_id
            &&& joined.config.leader_id == server.config.leader_id
            &&& joined.timers == server.timers && joined.active_runs == server.active_runs
        }),
{
}

/// Taking a node out of a list leaves no node of its name and every other one.
pub proof fn node_is_taken_out(nodes: Seq<NodeView>, node: NodeView, node_id: Seq<char>)
    ensures
        ({
            let longer = crate::cluster_engine::without_node(nodes.push(node), node_id);
            let shorter = crate::cluster_engine::without_node(nodes, node_id);
            &&& crate::cluster_engine::without_node(Seq::empty(), node_id).len() == 0
            &&& node.node_id == node_id ==> longer == shorter
            &&& node.node_id != node_id ==> longer == shorter.push(node)
        }),
{
    assert(nodes.push(node).drop_last() =~= nodes);
}

/// What is shown of a timer is what is kept of it: its tenant, its state, its target, its
/// next run, its last status and its token; a timer that is not known is not shown.
pub proof fn shown_timer_is_the_kept_one(server: ClusterView, id: Seq<char>)
    ensures
        server.summary(id) is Some <==> server.timers.dom().contains(id),
        server.summary(id) is Some ==> {
            let shown = server.summary(id)->0;
            &&& shown.id == id
            &&& shown.tenant_id == server.timers[id].tenant_id
            &&& shown.target == server.timers[id].target
            &&& server.states.dom().contains(id) ==> shown.state == server.states[id]
            &&& !server.states.dom().contains(id) ==> shown.state == TimerState::Scheduled
            &&& shown.next_run_at is Some <==> server.next_runs.dom().contains(id)
            &&& shown.next_run_at is Some ==> shown.next_run_at->0 == server.next_runs[id]
            &&& server.fencing.dom().contains(id) ==> shown.fencing_token == server.fencing[id]
            &&& !server.fencing.dom().contains(id) ==> shown.fencing_token == 0
            &&& shown.last_status == crate::cluster::latest_kind(server.history, id)
        },
{
}

/// A list of timers shows each of the given ones that is known, in the given order.
pub proof fn list_shows_every_timer(server: ClusterView, keys: Seq<Seq<char>>, key: Seq<char>)
    ensures
        ({
            let longer = server.listed(keys.push(key));
            &&& server.listed(Seq::empty()).len() == 0
            &&& server.timers.dom().contains(key) ==> longer.len() == server.listed(keys).len() + 1
                && longer.drop_last() == server.listed(keys) && longer.last().id == key
                && Some(longer.last()) == server.summary(key)
            &&& !server.timers.dom().contains(key) ==> longer == server.listed(keys)
        }),
{
    assert(keys.push(key).drop_last() =~= keys);
    if server.timers.dom().contains(key) {
        assert(server.listed(keys.push(key)).drop_last() =~= server.listed(keys));
    }
}

/// A server begins with nothing and leads exactly if it is named as the leader. Who does not
/// lead says who does.
pub proof fn server_begins_empty(config: ConfigView, id: Seq<char>)
    ensures
        ({
            let server = ClusterView::initial(config);
            &&& server.leader <==> config.leader_id == config.node_id
            &&& !server.shutting_down
            &&& server.config == config
            &&& !server.timers.dom().contains(id) && !server.next_runs.dom().contains(id)
            &&& !server.active_runs.dom().contains(id) && !server.workers.dom().contains(id)
            &&& server.token_of(id) == 0
            &&& server.pending.len() == 0 && server.history.len() == 0
            &&& server.not_leader() == KronErrorView::IpcUnavailable(
                "not_leader: leader is "@ + config.leader_id,
            )
        }),
{
}

/// A run can be ended by the worker that holds it under its token, and by nobody else; what
/// is wrong is said.
pub proof fn only_the_holder_ends_a_run(
    server: ClusterView,
    run_id: Seq<char>,
    worker_id: Seq<char>,
    token: u64,
)
    ensures
        ({
            let refusal = server.refusal(run_id, worker_id, token);
            let here = server.active_runs.dom().contains(run_id);
            let own = here && server.active_runs[run_id].worker_id == worker_id;
            let fresh = own && server.active_runs[run_id].fencing_token == token;
            &&& refusal is None <==> fresh
            &&& server.holds(run_id, worker_id, token) <==> fresh
            &&& !here ==> refusal == Some(KronErrorView::IpcUnavailable("run not active"@))
            &&& here && !own ==> refusal == Some(
                KronErrorView::IpcUnavailable("worker is not run owner"@),
            )
            &&& own && !fresh ==> refusal == Some(
                KronErrorView::IpcUnavailable("stale fencing token"@),
            )
        }),
{
}

/// A majority of a server and its peers is more than half of them and no more than all; one
/// less would be half or less.
pub proof fn majority_is_more_than_half(peers: nat)
    ensures
        2 * crate::cluster_engine::majority(peers) > peers + 1,
        2 * (crate::cluster_engine::majority(peers) - 1) <= peers + 1,
        crate::cluster_engine::majority(peers) <= peers + 1,
{
}

/// A key is among the wanted keys of an order exactly if it is in the order and wanted.
pub proof fn key_is_found_if_wanted(
    keys: Seq<Seq<char>>,
    wanted: spec_fn(Seq<char>) -> bool,
    key: Seq<char>,
)
    ensures
        crate::cluster_engine::keys_where(keys, wanted).contains(key) <==> keys.contains(key)
            && wanted(key),
    decreases keys.len(),
{
    if keys.len() > 0 {
        let front = keys.drop_last();
        let last = keys.last();
        let found = crate::cluster_engine::keys_where(front, wanted);
        key_is_found_if_wanted(front, wanted, key);
        wanted_keys_are_all(front, wanted, last);
        assert(front.push(last) =~= keys);
        if keys.contains(key) && key != last {
            let i = keys.index_of(key);
            assert(front[i] == key);
        }
        if front.contains(key) {
            let i = front.index_of(key);
            assert(keys[i] == key);
        }
        assert(keys[keys.len() - 1] == last);
        if found.contains(key) {
            let i = found.index_of(key);
            assert(found.push(last)[i] == key);
        }
        assert(found.push(last)[found.len() as int] == last);
        if found.push(last).contains(key) && key != last {
            let i = found.push(last).index_of(key);
            assert(found[i] == key);
        }
    }
}

/// Workers that are given up are gone, each of them is noted, and the others stay; so does
/// everything else.
pub proof fn given_up_workers_are_gone(
    server: ClusterView,
    ids: Seq<Seq<char>>,
    now: TimeView,
    worker: Seq<char>,
)
    ensures
        ({
            let after = server.lost_all(ids, now);
            &&& after.workers.dom().contains(worker) <==> server.workers.dom().contains(worker)
                && !ids.contains(worker)
            &&& after.workers.dom().contains(worker) ==> after.workers[worker]
                == server.workers[worker]
            &&& after.history.len() == server.history.len() + ids.len()
            &&& after.timers == server.timers && after.pending == server.pending
                && after.active_runs == server.active_runs && after.next_runs == server.next_runs
        }),
    decreases ids.len(),
{
    if ids.len() > 0 {
        given_up_workers_are_gone(server, ids.drop_last(), now, worker);
        if ids.contains(worker) && worker != ids.last() {
            let i = ids.index_of(worker);
            assert(ids.drop_last()[i] == worker);
        }
        if ids.drop_last().contains(worker) {
            let i = ids.drop_last().index_of(worker);
            assert(ids[i] == worker);
        }
        assert(ids[ids.len() - 1] == ids.last());
    }
}

/// Runs that are taken from their workers are no longer active, and every other active run stays
/// as it was.
pub proof fn taken_runs_are_not_active(
    server: ClusterView,
    runs: Seq<Seq<char>>,
    now: TimeView,
    run: Seq<char>,
)
    ensures
        ({
            let after = server.expired_all(runs, now);
            &&& after.active_runs.dom().contains(run) <==> server.active_runs.dom().contains(run)
                && !runs.contains(run)
            &&& after.active_runs.dom().contains(run) ==> after.active_runs[run]
                == server.active_runs[run]
            &&& after.timers == server.timers && after.workers == server.workers
                && after.next_runs == server.next_runs
        }),
    decreases runs.len(),
{
    if runs.len() > 0 {
        taken_runs_are_not_active(server, runs.drop_last(), now, run);
        if runs.contains(run) && run != runs.last() {
            let i = runs.index_of(run);
            assert(runs.drop_last()[i] == run);
        }
        if runs.drop_last().contains(run) {
            let i = runs.drop_last().index_of(run);
            assert(runs[i] == run);
        }
        assert(runs[runs.len() - 1] == runs.last());
    }
}

/// A worker is left exactly if it was heard of within its lease, and a run is taken from its
/// worker exactly if its lease has expired or its worker is not among those that are left.
pub proof fn silence_and_expiry_are_acted_on(
    server: ClusterState,
    now: TimeView,
    tick: u64,
    worker: Seq<char>,
    run: Seq<char>,
)
    requires
        server.workers.ordered(),
        server.active_runs.ordered(),
    ensures
        ({
            let left = server.left(now, tick).workers;
            let active = server@.active_runs[run];
            &&& left.dom().contains(worker) <==> server@.workers.dom().contains(worker)
                && server@.workers[worker].lease_until >= tick
            &&& server.to_expire(now, tick).contains(run) <==> server@.active_runs.dom().contains(
                run,
            ) && (!now.before(active.lease_deadline) || !left.dom().contains(active.worker_id))
        }),
{
    let silent = crate::cluster_engine::keys_where(server.workers.order(), server@.silent(tick));
    key_is_found_if_wanted(server.workers.order(), server@.silent(tick), worker);
    given_up_workers_are_gone(server@, silent, now, worker);
    given_up_workers_are_gone(server@, silent, now, server@.active_runs[run].worker_id);
    key_is_found_if_wanted(
        server.active_runs.order(),
        server.left(now, tick).abandoned(now),
        run,
    );
}

/// One more timer that gets a run keeps the runs of the others.
proof fn runs_that_wait_stay(
    server: ClusterView,
    id: Seq<char>,
    run_id: Seq<char>,
    other: Seq<char>,
)
    ensures
        server.is_pending(other) ==> server.enqueued(id, run_id).is_pending(other),
        server.is_active(other) ==> server.enqueued(id, run_id).is_active(other),
        server.enqueued(id, run_id).timers == server.timers,
        server.timers.dom().contains(id) && server.timers[id].target is WorkerTask
            ==> server.enqueued(id, run_id).is_pending(id) || server.enqueued(
            id,
            run_id,
        ).is_active(id),
{
    let after = server.enqueued(id, run_id);
    if server.is_pending(other) {
        let i = choose|i: int|
            0 <= i < server.pending.len() && (#[trigger] server.pending[i]).timer == other;
        assert(after.pending[i] == server.pending[i]);
    }
    if server.is_active(other) {
        let run = choose|run: Seq<char>| #[trigger]
            server.active_runs.dom().contains(run) && server.active_runs[run].timer_id == other;
        assert(after.active_runs.dom().contains(run));
    }
    if after != server {
        assert(after.pending[server.pending.len() as int].timer == id);
    }
}

/// Every due timer for workers has a run that waits or is active once all of them got theirs.
pub proof fn every_due_timer_has_a_run(
    server: ClusterView,
    ids: Seq<Seq<char>>,
    names: Seq<Seq<char>>,
    i: int,
)
    requires
        0 <= i < ids.len(),
        server.timers.dom().contains(ids[i]),
        server.timers[ids[i]].target is WorkerTask,
    ensures
        server.enqueued_all(ids, names).is_pending(ids[i]) || server.enqueued_all(
            ids,
            names,
        ).is_active(ids[i]),
        server.enqueued_all(ids, names).timers == server.timers,
    decreases ids.len(),
{
    let front = ids.drop_last();
    let before = server.enqueued_all(front, names);
    timers_stay(server, front, names);
    runs_that_wait_stay(before, ids.last(), names[ids.len() - 1], ids[i]);
    if i < front.len() {
        assert(front[i] == ids[i]);
        every_due_timer_has_a_run(server, front, names, i);
    }
}

/// That timers get runs does not change the timers.
proof fn timers_stay(server: ClusterView, ids: Seq<Seq<char>>, names: Seq<Seq<char>>)
    ensures
        server.enqueued_all(ids, names).timers == server.timers,
    decreases ids.len(),
{
    if ids.len() > 0 {
        let before = server.enqueued_all(ids.drop_last(), names);
        timers_stay(server, ids.drop_last(), names);
        runs_that_wait_stay(before, ids.last(), names[ids.len() - 1], ids.last());
    }
}

/// A run that fails is tried again exactly if its timer is still known and it was not the last
/// of the attempts that the timer has; with the last one the timer is dead.
pub proof fn failed_run_is_tried_up_to_the_limit(
    server: ClusterView,
    run_id: Seq<char>,
    by: Option<Seq<char>>,
    error: Seq<char>,
    now: TimeView,
)
    requires
        server.active_runs.dom().contains(run_id),
        server.can_fail(run_id),
    ensures
        ({
            let active = server.active_runs[run_id];
            let after = server.failed(run_id, by, error, now);
            let left = server.timers.dom().contains(active.timer_id) && active.attempt
                < server.timers[active.timer_id].retry.max_attempts;
            let waits = after.pending.len() > server.pending.len();
            &&& after.states[active.timer_id] == TimerState::Dead <==> !left
            &&& waits <==> left && server.timers[active.timer_id].target is WorkerTask
            &&& !after.active_runs.dom().contains(run_id)
        }),
{
}

/// The timer that a command is about, if it is about one.
pub open spec fn timer_of(server: ClusterView, command: CommandView) -> Option<Seq<char>> {
    match command {
        CommandView::CreateTimer { spec, .. } => Some(spec.id),
        CommandView::UpdateTimer { spec, .. } => Some(spec.id),
        CommandView::CancelTimer { timer_id } => Some(timer_id),
        CommandView::PauseTimer { timer_id } => Some(timer_id),
        CommandView::ResumeTimer { timer_id, .. } => Some(timer_id),
        CommandView::ClaimRun { timer_id, .. } => Some(timer_id),
        CommandView::CompleteRun { run_id, .. } => Some(server.active_runs[run_id].timer_id),
        CommandView::FailRun { run_id, .. } => Some(server.active_runs[run_id].timer_id),
        _ => None,
    }
}

/// A command touches no timer but the one it is about, forgets no timer, and takes nothing from
/// the history.
pub proof fn command_touches_one_timer(
    server: ClusterView,
    command: CommandView,
    now: TimeView,
    tick: u64,
    other: Seq<char>,
)
    requires
        timer_of(server, command) != Some(other),
        server.apply(command, now, tick) is Ok,
    ensures
        ({
            let after = server.apply(command, now, tick)->Ok_0;
            let n = server.history.len() as int;
            &&& crate::state::found(after.timers, other) == crate::state::found(
                server.timers,
                other,
            )
            &&& crate::state::found(after.states, other) == crate::state::found(
                server.states,
                other,
            )
            &&& crate::state::found(after.next_runs, other) == crate::state::found(
                server.next_runs,
                other,
            )
            &&& crate::state::found(after.fencing, other) == crate::state::found(
                server.fencing,
                other,
            )
            &&& n <= after.history.len() <= n + 1
            &&& after.history.take(n) == server.history
        }),
        forall|id: Seq<char>| #[trigger]
            server.timers.dom().contains(id) ==> server.apply(
                command,
                now,
                tick,
            )->Ok_0.timers.dom().contains(id),
{
    let after = server.apply(command, now, tick)->Ok_0;
    assert(after.history.take(server.history.len() as int) =~= server.history);
}

/// A command leaves the runs alone that it does not name: they stay with their workers.
pub proof fn command_touches_one_run(
    server: ClusterView,
    command: CommandView,
    now: TimeView,
    tick: u64,
    run: Seq<char>,
)
    requires
        server.apply(command, now, tick) is Ok,
        command matches CommandView::ClaimRun { run_id, .. } ==> run_id != run,
        command matches CommandView::CompleteRun { run_id, .. } ==> run_id != run,
        command matches CommandView::FailRun { run_id, .. } ==> run_id != run,
    ensures
        crate::state::found(server.apply(command, now, tick)->Ok_0.active_runs, run)
            == crate::state::found(server.active_runs, run),
{
}

} // verus!
