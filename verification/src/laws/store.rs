//! What the commands of the replicated log make of its state machine.

use vstd::prelude::*;

use crate::cluster::{
    CommandView,
    DistributedSpecView,
    HistoryKind,
    HistoryView,
    NodeView,
    TargetView,
    WorkerRunView,
};
use crate::openraft_adapter::entry_log::{EntryView, LogId, PayloadView};
use crate::openraft_adapter::file_store::{MachineView, StoreView};
use crate::schedule::ScheduleView;
use crate::timer::TimerState;
use crate::timestamp::TimeView;

verus! {

/// A timer that is created or changed is kept with its whole specification, scheduled, with
/// no token given out, and with the next run that the command tells of; that is noted.
pub proof fn created_timer_is_kept(
    machine: MachineView,
    spec: DistributedSpecView,
    next_run_at: Option<TimeView>,
)
    ensures
        ({
            let created = machine.apply(CommandView::CreateTimer { spec, next_run_at });
            let updated = machine.apply(CommandView::UpdateTimer { spec, next_run_at });
            &&& created == updated
            &&& created.timers.dom().contains(spec.id)
            &&& created.timers[spec.id].spec == spec
            &&& created.timers[spec.id].state == TimerState::Scheduled
            &&& created.timers[spec.id].fencing_token == 0
            &&& crate::state::found(created.next_runs, spec.id) == next_run_at
            &&& created.history.drop_last() == machine.history
            &&& created.history.last().kind == HistoryKind::TimerCreated
            &&& created.history.last().timer == Some(spec.id)
            &&& created.history.last().tenant_id == spec.tenant_id
            &&& created.pending == machine.pending
            &&& created.active_runs == machine.active_runs
            &&& created.workers == machine.workers
            &&& created.nodes == machine.nodes
        }),
{
    let created = machine.apply(CommandView::CreateTimer { spec, next_run_at });
    assert(created.history.drop_last() =~= machine.history);
}

/// A timer that is cancelled or paused is so and has no next run; one that is resumed is
/// scheduled, with the next run that the command tells of. Its specification and its token
/// stay, and so does all else.
pub proof fn lifecycle_commands_set_state_and_next_run(
    machine: MachineView,
    timer_id: Seq<char>,
    next_run_at: Option<TimeView>,
    command: CommandView,
)
    requires
        command == (CommandView::CancelTimer { timer_id }) || command == (CommandView::PauseTimer {
            timer_id,
        }) || command == (CommandView::ResumeTimer { timer_id, next_run_at }),
    ensures
        ({
            let after = machine.apply(command);
            let next = crate::state::found(after.next_runs, timer_id);
            &&& command is ResumeTimer ==> next == next_run_at
            &&& !(command is ResumeTimer) ==> next is None
            &&& machine.timers.dom().contains(timer_id) ==> {
                &&& after.timers.dom().contains(timer_id)
                &&& after.timers[timer_id].spec == machine.timers[timer_id].spec
                &&& after.timers[timer_id].fencing_token == machine.timers[timer_id].fencing_token
                &&& command is CancelTimer ==> after.timers[timer_id].state
                    == TimerState::Cancelled
                &&& command is PauseTimer ==> after.timers[timer_id].state == TimerState::Paused
                &&& command is ResumeTimer ==> after.timers[timer_id].state
                    == TimerState::Scheduled
            }
            &&& !machine.timers.dom().contains(timer_id) ==> after.timers == machine.timers
            &&& after.active_runs == machine.active_runs
            &&& after.pending == machine.pending
            &&& after.workers == machine.workers
            &&& after.history == machine.history
        }),
{
}

/// A claim of a timer of which no run is active gives the run to the worker: it is active
/// under its name with the token, the attempt and the lease of the claim, the timer runs
/// under the token, and the claim is noted.
pub proof fn claim_gives_the_run(
    machine: MachineView,
    timer_id: Seq<char>,
    run_id: Seq<char>,
    worker_id: Seq<char>,
    fencing_token: u64,
    attempt: u32,
    lease_deadline: TimeView,
)
    requires
        forall|run: Seq<char>| #[trigger]
            machine.active_runs.dom().contains(run) ==> machine.active_runs[run].timer_id
                != timer_id,
    ensures
        ({
            let after = machine.apply(
                CommandView::ClaimRun {
                    timer_id,
                    run_id,
                    worker_id,
                    fencing_token,
                    attempt,
                    lease_deadline,
                },
            );
            let active = after.active_runs[run_id];
            &&& after.active_runs.dom() == machine.active_runs.dom().insert(run_id)
            &&& active.timer_id == timer_id && active.run_id == run_id
            &&& active.worker_id == worker_id && active.fencing_token == fencing_token
            &&& active.attempt == attempt && active.lease_deadline == lease_deadline
            &&& machine.timers.dom().contains(timer_id) ==> {
                &&& after.timers[timer_id].state == TimerState::Running
                &&& after.timers[timer_id].fencing_token == fencing_token
                &&& after.timers[timer_id].spec == machine.timers[timer_id].spec
                &&& after.history.last().tenant_id == machine.timers[timer_id].spec.tenant_id
            }
            &&& after.next_runs == machine.next_runs
            &&& after.history.drop_last() == machine.history
            &&& after.history.last().kind == HistoryKind::RunClaimed
            &&& after.history.last().timer == Some(timer_id)
            &&& after.history.last().run_id == Some(run_id)
            &&& after.history.last().worker_id == Some(worker_id)
            &&& after.history.last().fencing_token == Some(fencing_token)
        }),
{
    let after = machine.apply(
        CommandView::ClaimRun {
            timer_id,
            run_id,
            worker_id,
            fencing_token,
            attempt,
            lease_deadline,
        },
    );
    assert(!machine.is_active(timer_id));
    assert(after.history.drop_last() =~= machine.history);
}

/// A run that is claimed no longer waits; the other runs that wait are kept in their order.
pub proof fn claimed_run_no_longer_waits(
    pending: Seq<WorkerRunView>,
    run_id: Seq<char>,
    at: int,
    i: int,
)
    requires
        0 <= at < pending.len(),
        pending[at].run_id == run_id,
        forall|k: int| 0 <= k < at ==> (#[trigger] pending[k]).run_id != run_id,
    ensures
        ({
            let left = crate::openraft_adapter::file_store::without_run(pending, run_id);
            &&& left.len() == pending.len() - 1
            &&& 0 <= i < at ==> left[i] == pending[i]
            &&& at <= i < left.len() ==> left[i] == pending[i + 1]
        }),
        forall|other: Seq<char>|
            (forall|k: int| 0 <= k < pending.len() ==> (#[trigger] pending[k]).run_id != other)
                ==> #[trigger] crate::openraft_adapter::file_store::without_run(pending, other)
                == pending,
{
    assert(crate::openraft_adapter::file_store::first_of_name(pending, run_id, at));
    let chosen = choose|at: int|
        crate::openraft_adapter::file_store::first_of_name(pending, run_id, at);
    assert(chosen == at);
}

/// When the holder of a run completes it, the next run of a timer that repeats is the one
/// that its schedule gives after the completion, in its time zone: for an interval it is the
/// interval later, so that the timer is not due when the run is over. A timer that fires
/// once has no next run any more. The run is over and the timer is scheduled.
pub proof fn completed_run_is_scheduled_again(
    machine: MachineView,
    run_id: Seq<char>,
    worker_id: Seq<char>,
    fencing_token: u64,
    completed_at: TimeView,
    seconds: u64,
)
    requires
        machine.active_runs.dom().contains(run_id),
        machine.active_runs[run_id].worker_id == worker_id,
        machine.active_runs[run_id].fencing_token == fencing_token,
        machine.timers.dom().contains(machine.active_runs[run_id].timer_id),
        0 <= completed_at.nanos < 1_000_000_000,
    ensures
        ({
            let timer = machine.active_runs[run_id].timer_id;
            let spec = machine.timers[timer].spec;
            let after = machine.apply(
                CommandView::CompleteRun { run_id, worker_id, fencing_token, completed_at },
            );
            let next = crate::state::found(after.next_runs, timer);
            &&& spec.schedule == (ScheduleView::Every { seconds })
                && crate::schedule::timezone_known(spec.timezone) ==> next == Some(
                TimeView { secs: completed_at.secs + seconds, nanos: completed_at.nanos },
            )
            &&& spec.schedule == (ScheduleView::Every { seconds })
                && crate::schedule::timezone_known(spec.timezone) && seconds > 0
                ==> completed_at.before(next->0)
            &&& spec.schedule is Cron ==> match spec.schedule.next(completed_at, spec.timezone) {
                Ok(at) => next == at,
                Err(_) => next is None,
            }
            &&& spec.schedule is Every && !crate::schedule::timezone_known(spec.timezone)
                ==> next is None
            &&& spec.schedule is At || spec.schedule is After ==> next is None
            &&& !after.active_runs.dom().contains(run_id)
            &&& after.timers[timer].state == TimerState::Scheduled
            &&& after.timers[timer].spec == spec
            &&& after.timers[timer].fencing_token == machine.timers[timer].fencing_token
            &&& after.history.drop_last() == machine.history
            &&& after.history.last().kind == HistoryKind::RunSucceeded
            &&& after.history.last().timer == Some(timer)
            &&& after.history.last().tenant_id == spec.tenant_id
            &&& after.history.last().run_id == Some(run_id)
            &&& after.history.last().worker_id == Some(worker_id)
            &&& after.history.last().fencing_token == Some(fencing_token)
            &&& after.history.last().error is None
            &&& after.pending == machine.pending
            &&& after.workers == machine.workers
        }),
{
    let after = machine.apply(
        CommandView::CompleteRun { run_id, worker_id, fencing_token, completed_at },
    );
    assert(after.history.drop_last() =~= machine.history);
}

/// The next attempt of a failed run carries the task, the payload and the tenant of its
/// timer.
pub proof fn next_attempt_carries_the_task(
    machine: MachineView,
    run_id: Seq<char>,
    worker_id: Seq<char>,
    fencing_token: u64,
    error: Seq<char>,
    at: TimeView,
    task: Seq<char>,
    payload: Seq<char>,
)
    requires
        machine.active_runs.dom().contains(run_id),
        machine.active_runs[run_id].worker_id == worker_id,
        machine.active_runs[run_id].fencing_token == fencing_token,
        machine.timers.dom().contains(machine.active_runs[run_id].timer_id),
        machine.timers[machine.active_runs[run_id].timer_id].spec.target
            == (TargetView::WorkerTask { task, payload }),
        machine.active_runs[run_id].attempt
            < machine.timers[machine.active_runs[run_id].timer_id].spec.retry.max_attempts,
    ensures
        ({
            let after = machine.apply(
                CommandView::FailRun { run_id, worker_id, fencing_token, error, failed_at: at },
            );
            let timer = machine.active_runs[run_id].timer_id;
            let run = after.pending.last();
            &&& after.pending.len() == machine.pending.len() + 1
            &&& run.task == task && run.payload == payload
            &&& run.tenant_id == machine.timers[timer].spec.tenant_id
            &&& run.timer == timer
            &&& run.run_id == machine.active_runs[run_id].run_id
            &&& after.history.last().timer == Some(timer)
            &&& after.history.last().worker_id == Some(worker_id)
            &&& after.history.last().fencing_token == Some(fencing_token)
            &&& after.history.last().tenant_id == machine.timers[timer].spec.tenant_id
        }),
{
}

/// A run whose lease is ended is over, and that is noted with the worker it was taken from.
/// A replacement waits as it stands, and the timer takes its token; without one the timer is
/// dead. A run that is not active has no lease to end.
pub proof fn ended_lease_is_replaced_or_dead(
    machine: MachineView,
    run_id: Seq<char>,
    replacement: WorkerRunView,
    at: TimeView,
)
    requires
        machine.active_runs.dom().contains(run_id),
        machine.timers.dom().contains(machine.active_runs[run_id].timer_id),
        replacement.timer == machine.active_runs[run_id].timer_id,
    ensures
        ({
            let active = machine.active_runs[run_id];
            let with = machine.apply(
                CommandView::ExpireRunLease {
                    run_id,
                    replacement: Some(replacement),
                    expired_at: at,
                },
            );
            let without = machine.apply(
                CommandView::ExpireRunLease { run_id, replacement: None, expired_at: at },
            );
            &&& !with.active_runs.dom().contains(run_id)
            &&& !without.active_runs.dom().contains(run_id)
            &&& with.pending == machine.pending.push(replacement)
            &&& without.pending == machine.pending
            &&& with.timers[active.timer_id].state == TimerState::Retrying
            &&& with.timers[active.timer_id].fencing_token == replacement.fencing_token
            &&& with.timers[active.timer_id].spec == machine.timers[active.timer_id].spec
            &&& without.timers[active.timer_id].state == TimerState::Dead
            &&& with.history == without.history
            &&& with.history.drop_last() == machine.history
            &&& with.history.last().kind == HistoryKind::RunLeaseExpired
            &&& with.history.last().timer == Some(active.timer_id)
            &&& with.history.last().run_id == Some(active.run_id)
            &&& with.history.last().worker_id == Some(active.worker_id)
            &&& with.history.last().fencing_token == Some(active.fencing_token)
            &&& with.next_runs == machine.next_runs && without.next_runs == machine.next_runs
        }),
        forall|other: Seq<char>, r: Option<WorkerRunView>|
            !machine.active_runs.dom().contains(other) ==> #[trigger] machine.apply(
                CommandView::ExpireRunLease { run_id: other, replacement: r, expired_at: at },
            ) == machine,
{
    let with = machine.apply(
        CommandView::ExpireRunLease { run_id, replacement: Some(replacement), expired_at: at },
    );
    assert(with.history.drop_last() =~= machine.history);
}

/// A worker that registers is known by its tasks for its lease, until it unregisters; each
/// is noted. A heartbeat moves the lease of a known worker, keeps its tasks and is noted;
/// that of an unknown one changes nothing.
pub proof fn workers_come_and_go(
    machine: MachineView,
    worker_id: Seq<char>,
    tasks: Seq<Seq<char>>,
    lease_until: TimeView,
)
    ensures
        ({
            let here = machine.apply(
                CommandView::RegisterWorker { worker_id, tasks, lease_until },
            );
            let gone = machine.apply(CommandView::UnregisterWorker { worker_id });
            let heard = machine.apply(CommandView::HeartbeatWorker { worker_id, lease_until });
            let known = machine.workers.dom().contains(worker_id);
            &&& here.workers.dom() == machine.workers.dom().insert(worker_id)
            &&& here.workers[worker_id].tasks == tasks
            &&& here.workers[worker_id].lease_until == lease_until
            &&& here.history.last().kind == HistoryKind::WorkerRegistered
            &&& here.history.last().worker_id == Some(worker_id)
            &&& here.history.len() == machine.history.len() + 1
            &&& gone.workers.dom() == machine.workers.dom().remove(worker_id)
            &&& gone.history == machine.history
            &&& known ==> {
                &&& heard.workers.dom() == machine.workers.dom()
                &&& heard.workers[worker_id].tasks == machine.workers[worker_id].tasks
                &&& heard.workers[worker_id].lease_until == lease_until
                &&& heard.history.len() == machine.history.len() + 1
                &&& heard.history.last().kind == HistoryKind::WorkerHeartbeat
                &&& heard.history.last().worker_id == Some(worker_id)
            }
            &&& !known ==> heard == machine
            &&& forall|other: Seq<char>|
                other != worker_id ==> {
                    &&& crate::state::found(here.workers, other) == #[trigger] crate::state::found(
                        machine.workers,
                        other,
                    )
                    &&& crate::state::found(gone.workers, other) == crate::state::found(
                        machine.workers,
                        other,
                    )
                    &&& crate::state::found(heard.workers, other) == crate::state::found(
                        machine.workers,
                        other,
                    )
                }
            &&& here.timers == machine.timers && gone.timers == machine.timers && heard.timers
                == machine.timers
            &&& here.active_runs == machine.active_runs && gone.active_runs == machine.active_runs
                && heard.active_runs == machine.active_runs
        }),
{
    let here = machine.apply(CommandView::RegisterWorker { worker_id, tasks, lease_until });
    let heard = machine.apply(CommandView::HeartbeatWorker { worker_id, lease_until });
    assert(here.workers.dom() =~= machine.workers.dom().insert(worker_id));
    if machine.workers.dom().contains(worker_id) {
        assert(heard.workers.dom() =~= machine.workers.dom());
    }
}

/// A node that joins is known by its name with its addresses until it leaves.
pub proof fn nodes_come_and_go(machine: MachineView, node: NodeView, other: Seq<char>)
    requires
        other != node.node_id,
    ensures
        ({
            let here = machine.apply(CommandView::AddNode { node });
            let gone = machine.apply(CommandView::RemoveNode { node_id: node.node_id });
            &&& here.nodes.dom().contains(node.node_id)
            &&& here.nodes[node.node_id] == node
            &&& !gone.nodes.dom().contains(node.node_id)
            &&& crate::state::found(here.nodes, other) == crate::state::found(machine.nodes, other)
            &&& crate::state::found(gone.nodes, other) == crate::state::found(machine.nodes, other)
            &&& here.timers == machine.timers && gone.timers == machine.timers
            &&& here.active_runs == machine.active_runs && gone.active_runs == machine.active_runs
        }),
{
}

/// The timer that a command is about, if it is about one.
pub open spec fn timer_of(machine: MachineView, command: CommandView) -> Option<Seq<char>> {
    match command {
        CommandView::CreateTimer { spec, .. } => Some(spec.id),
        CommandView::UpdateTimer { spec, .. } => Some(spec.id),
        CommandView::CancelTimer { timer_id } => Some(timer_id),
        CommandView::PauseTimer { timer_id } => Some(timer_id),
        CommandView::ResumeTimer { timer_id, .. } => Some(timer_id),
        CommandView::ClaimRun { timer_id, .. } => Some(timer_id),
        CommandView::CompleteRun { run_id, .. } => Some(machine.active_runs[run_id].timer_id),
        CommandView::FailRun { run_id, .. } => Some(machine.active_runs[run_id].timer_id),
        CommandView::ExpireRunLease { run_id, replacement, .. } => match replacement {
            Some(run) => Some(run.timer),
            None => Some(machine.active_runs[run_id].timer_id),
        },
        _ => None,
    }
}

/// A command touches no timer but the one it is about, forgets no timer, and takes nothing
/// from the history.
pub proof fn command_touches_one_timer(machine: MachineView, command: CommandView, other: Seq<char>)
    requires
        timer_of(machine, command) != Some(other),
    ensures
        ({
            let after = machine.apply(command);
            &&& crate::state::found(after.timers, other) == crate::state::found(
                machine.timers,
                other,
            )
            &&& crate::state::found(after.next_runs, other) == crate::state::found(
                machine.next_runs,
                other,
            )
        }),
        forall|id: Seq<char>| #[trigger]
            machine.timers.dom().contains(id) ==> machine.apply(command).timers.dom().contains(id),
        machine.history.len() <= machine.apply(command).history.len() <= machine.history.len() + 1,
        machine.apply(command).history.take(machine.history.len() as int) == machine.history,
{
    let after = machine.apply(command);
    assert(after.history.take(machine.history.len() as int) =~= machine.history);
}

/// A command leaves the runs alone that it does not name: they stay with their workers.
pub proof fn command_touches_one_run(machine: MachineView, command: CommandView, run: Seq<char>)
    requires
        command matches CommandView::ClaimRun { run_id, .. } ==> run_id != run,
        command matches CommandView::CompleteRun { run_id, .. } ==> run_id != run,
        command matches CommandView::FailRun { run_id, .. } ==> run_id != run,
        command matches CommandView::ExpireRunLease { run_id, .. } ==> run_id != run,
    ensures
        crate::state::found(machine.apply(command).active_runs, run) == crate::state::found(
            machine.active_runs,
            run,
        ),
{
}

/// An entry of the log is counted as applied whatever it holds; one with a command does what
/// the command does, one with a membership is remembered with its place, and an empty one
/// does nothing else.
pub proof fn entries_are_applied_as_they_are(
    machine: MachineView,
    entry: EntryView,
    command: CommandView,
)
    ensures
        ({
            let after = machine.apply_entry(entry);
            &&& after.last_applied_log_id == Some(entry.log_id)
            &&& entry.payload == PayloadView::Normal(command) ==> {
                &&& after.timers == machine.apply(command).timers
                &&& after.next_runs == machine.apply(command).next_runs
                &&& after.active_runs == machine.apply(command).active_runs
                &&& after.pending == machine.apply(command).pending
                &&& after.workers == machine.apply(command).workers
                &&& after.nodes == machine.apply(command).nodes
                &&& after.history == machine.apply(command).history
                &&& after.last_membership == machine.last_membership
            }
            &&& !(entry.payload is Normal) ==> {
                &&& after.timers == machine.timers && after.next_runs == machine.next_runs
                &&& after.active_runs == machine.active_runs && after.history == machine.history
                &&& after.pending == machine.pending && after.workers == machine.workers
            }
            &&& entry.payload matches PayloadView::Membership(membership) ==> {
                &&& after.last_membership.log_id == Some(entry.log_id)
                &&& after.last_membership.membership == membership
            }
        }),
{
}

/// What is shown of the replicated state is what is kept: every timer with its target, its
/// state, its token, its tenant, its next run and what was last noted of it, and all runs, nodes
/// and entries of the history.
pub proof fn shown_state_is_the_kept_one(machine: MachineView, id: Seq<char>)
    ensures
        ({
            let app = machine.app_state();
            let shown = app.timers[id];
            &&& app.timers.dom().contains(id) <==> machine.timers.dom().contains(id)
            &&& app.specs.dom().contains(id) <==> machine.timers.dom().contains(id)
            &&& machine.timers.dom().contains(id) ==> {
                &&& app.specs[id] == machine.timers[id].spec
                &&& shown.id == id
                &&& shown.target == machine.timers[id].spec.target
                &&& shown.tenant_id == machine.timers[id].spec.tenant_id
                &&& shown.state == machine.timers[id].state
                &&& shown.fencing_token == machine.timers[id].fencing_token
                &&& shown.next_run_at is Some <==> machine.next_runs.dom().contains(id)
                &&& shown.next_run_at is Some ==> shown.next_run_at->0 == machine.next_runs[id]
                &&& shown.last_status == crate::cluster::latest_kind(machine.history, id)
            }
            &&& app.active_runs == machine.active_runs
            &&& app.pending == machine.pending
            &&& app.nodes == machine.nodes
            &&& app.history == machine.history
        }),
{
}

/// The status that is shown of a timer is the kind of the latest entry about it, and none
/// before there is one.
pub proof fn last_status_is_the_latest_entry(
    history: Seq<HistoryView>,
    entry: HistoryView,
    timer: Seq<char>,
)
    ensures
        crate::cluster::latest_kind(Seq::empty(), timer) is None,
        entry.timer == Some(timer) ==> crate::cluster::latest_kind(history.push(entry), timer)
            == Some(entry.kind.text()),
        entry.timer != Some(timer) ==> crate::cluster::latest_kind(history.push(entry), timer)
            == crate::cluster::latest_kind(history, timer),
        crate::cluster::history_of(Seq::empty(), timer).len() == 0,
        entry.timer == Some(timer) ==> crate::cluster::history_of(history.push(entry), timer)
            == crate::cluster::history_of(history, timer).push(entry),
        entry.timer != Some(timer) ==> crate::cluster::history_of(history.push(entry), timer)
            == crate::cluster::history_of(history, timer),
{
    assert(history.push(entry).drop_last() =~= history);
}

/// A log keeps the entries that it was given at their places and all others that it had.
pub proof fn log_keeps_the_rest(
    logs: Map<u64, EntryView>,
    entries: Seq<EntryView>,
    index: u64,
)
    requires
        forall|k: int| 0 <= k < entries.len() ==> (#[trigger] entries[k]).log_id.index != index,
    ensures
        ({
            let longer = crate::openraft_adapter::file_store::appended(logs, entries);
            &&& longer.dom().contains(index) <==> logs.dom().contains(index)
            &&& logs.dom().contains(index) ==> longer[index] == logs[index]
        }),
    decreases entries.len(),
{
    if entries.len() > 0 {
        let front = entries.drop_last();
        assert forall|k: int| 0 <= k < front.len() implies (#[trigger] front[k]).log_id.index
            != index by {
            assert(front[k] == entries[k]);
        }
        log_keeps_the_rest(logs, front, index);
        assert(entries.last() == entries[entries.len() - 1]);
    }
}

/// A state machine begins with nothing.
pub proof fn machine_begins_empty(membership: Seq<char>, id: Seq<char>)
    ensures
        ({
            let machine = MachineView::initial(membership);
            &&& !machine.timers.dom().contains(id) && !machine.next_runs.dom().contains(id)
            &&& !machine.active_runs.dom().contains(id) && !machine.workers.dom().contains(id)
            &&& !machine.nodes.dom().contains(id)
            &&& machine.pending.len() == 0 && machine.history.len() == 0
            &&& machine.last_applied_log_id is None
            &&& machine.last_membership.membership == membership
        }),
{
}

/// The last place of a log is that of its entry with the largest index; an entry with a larger
/// one becomes the last. Of an empty log it is the place up to which it was purged.
pub proof fn last_place_is_the_largest(store: StoreView, id: Option<LogId>, entry: EntryView)
    requires
        store.is_last(id),
    ensures
        store.logs == Map::<u64, EntryView>::empty() ==> id == store.last_purged_log_id,
        store.logs != Map::<u64, EntryView>::empty() ==> {
            &&& id is Some
            &&& store.logs.dom().contains(id->0.index)
            &&& store.logs[id->0.index].log_id == id->0
        },
        store.logs.dom().contains(entry.log_id.index) ==> id is Some && entry.log_id.index
            <= id->0.index,
        store.logs == Map::<u64, EntryView>::empty() || entry.log_id.index > id->0.index ==> (
        StoreView {
            logs: store.logs.insert(entry.log_id.index, entry),
            ..store
        }).is_last(Some(entry.log_id)),
{
    let more = StoreView { logs: store.logs.insert(entry.log_id.index, entry), ..store };
    assert(more.logs.dom().contains(entry.log_id.index));
    assert(more.logs != Map::<u64, EntryView>::empty());
}

} // verus!
