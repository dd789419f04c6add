//! The names under which things are written, and what is told of them.

use vstd::prelude::*;

use crate::cluster::{HistoryKind, HistoryView};
use crate::error::KronErrorView;
use crate::event::EventView;
use crate::state::StateView;
use crate::timer::{OverlapPolicy, Run, TimerState};
use crate::timestamp::TimeView;

verus! {

/// A state of a timer is shown under its name.
pub proof fn states_have_their_names(state: TimerState)
    ensures
        state is Scheduled <==> state.name() == "scheduled"@,
        state is Running <==> state.name() == "running"@,
        state is Retrying <==> state.name() == "retrying"@,
        state is Dead <==> state.name() == "dead"@,
        state is Orphaned <==> state.name() == "orphaned"@,
        state is Paused <==> state.name() == "paused"@,
        state is Cancelled <==> state.name() == "cancelled"@,
{
    reveal_strlit("scheduled");
    reveal_strlit("running");
    reveal_strlit("retrying");
    reveal_strlit("dead");
    reveal_strlit("orphaned");
    reveal_strlit("paused");
    reveal_strlit("cancelled");
    assert("scheduled"@[0] == 's' && "running"@[0] == 'r' && "running"@[1] == 'u');
    assert("retrying"@[0] == 'r' && "retrying"@[1] == 'e' && "dead"@[0] == 'd');
    assert("orphaned"@[0] == 'o' && "paused"@[0] == 'p' && "cancelled"@[0] == 'c');
}

/// What is done when a run is due while another one lasts is chosen by its name.
pub proof fn overlap_is_chosen_by_name(name: Seq<char>)
    ensures
        OverlapPolicy::named(name) == Some(OverlapPolicy::Delay) <==> name == "delay"@,
        OverlapPolicy::named(name) == Some(OverlapPolicy::Skip) <==> name == "skip"@,
        OverlapPolicy::named(name) == Some(OverlapPolicy::Allow) <==> name == "allow"@,
        OverlapPolicy::named(name) is None <==> name != "delay"@ && name != "skip"@ && name
            != "allow"@,
{
    reveal_strlit("delay");
    reveal_strlit("skip");
    reveal_strlit("allow");
    assert("delay"@[0] == 'd' && "skip"@[0] == 's' && "allow"@[0] == 'a');
}

/// A run lasted from its start to its end; before it has both, nothing is known of that.
pub proof fn run_lasts_from_start_to_end(run: Run)
    ensures
        run.duration() is Some <==> run.started_at is Some && run.finished_at is Some,
        run.duration() is Some ==> run.duration()->0 == run.finished_at->0@.millis_since(
            run.started_at->0@,
        ),
{
}

/// An entry of the history of a server is shown under the name of what happened.
pub proof fn history_has_its_names(kind: HistoryKind)
    ensures
        kind is TimerCreated <==> kind.text() == "TIMER_CREATED"@,
        kind is RunClaimed <==> kind.text() == "RUN_CLAIMED"@,
        kind is RunSucceeded <==> kind.text() == "RUN_SUCCEEDED"@,
        kind is RunFailed <==> kind.text() == "RUN_FAILED"@,
        kind is RunLeaseExpired <==> kind.text() == "RUN_LEASE_EXPIRED"@,
        kind is RunDead <==> kind.text() == "RUN_DEAD"@,
        kind is WorkerRegistered <==> kind.text() == "WORKER_REGISTERED"@,
        kind is WorkerHeartbeat <==> kind.text() == "WORKER_HEARTBEAT"@,
        kind is WorkerLost <==> kind.text() == "WORKER_LOST"@,
{
    reveal_strlit("TIMER_CREATED");
    reveal_strlit("RUN_CLAIMED");
    reveal_strlit("RUN_SUCCEEDED");
    reveal_strlit("RUN_FAILED");
    reveal_strlit("RUN_LEASE_EXPIRED");
    reveal_strlit("RUN_DEAD");
    reveal_strlit("WORKER_REGISTERED");
    reveal_strlit("WORKER_HEARTBEAT");
    reveal_strlit("WORKER_LOST");
    assert("TIMER_CREATED"@[0] == 'T' && "RUN_CLAIMED"@[0] == 'R' && "RUN_CLAIMED"@[4] == 'C');
    assert("RUN_SUCCEEDED"@[0] == 'R' && "RUN_SUCCEEDED"@[4] == 'S');
    assert("RUN_FAILED"@[0] == 'R' && "RUN_FAILED"@[4] == 'F');
    assert("RUN_LEASE_EXPIRED"@[0] == 'R' && "RUN_LEASE_EXPIRED"@[4] == 'L');
    assert("RUN_DEAD"@[0] == 'R' && "RUN_DEAD"@[4] == 'D');
    assert("WORKER_REGISTERED"@[0] == 'W' && "WORKER_REGISTERED"@[7] == 'R');
    assert("WORKER_HEARTBEAT"@[0] == 'W' && "WORKER_HEARTBEAT"@[7] == 'H');
    assert("WORKER_LOST"@[0] == 'W' && "WORKER_LOST"@[7] == 'L');
}

/// An entry that tells nothing but what happened tells nothing else.
pub proof fn bare_entry_tells_nothing_else(kind: HistoryKind)
    ensures
        ({
            let entry = HistoryView::bare(kind);
            &&& entry.kind == kind
            &&& entry.timer is None && entry.tenant_id is None && entry.run_id is None
            &&& entry.worker_id is None && entry.fencing_token is None
            &&& entry.error is None && entry.ts is None
        }),
{
}

/// An event is about the timer and, where it is about a run, the run that it names.
pub proof fn events_are_about_what_they_name(event: EventView)
    ensures
        ({
            let timer = event.timer();
            let run = event.run();
            match event {
                EventView::TimerCreated { spec } => timer == spec.id && run is None,
                EventView::TimerUpdated { spec } => timer == spec.id && run is None,
                EventView::TimerPaused { timer_id, .. } => timer == timer_id && run is None,
                EventView::TimerResumed { timer_id, .. } => timer == timer_id && run is None,
                EventView::TimerCancelled { timer_id, .. } => timer == timer_id && run is None,
                EventView::RunDue { timer_id, run_id, .. } => timer == timer_id && run == Some(
                    run_id,
                ),
                EventView::RunStarted { timer_id, run_id, .. } => timer == timer_id && run == Some(
                    run_id,
                ),
                EventView::RunSkippedOverlap { timer_id, run_id, .. } => timer == timer_id && run
                    == Some(run_id),
                EventView::RunSucceeded { timer_id, run_id, .. } => timer == timer_id && run
                    == Some(run_id),
                EventView::RunFailed { timer_id, run_id, .. } => timer == timer_id && run == Some(
                    run_id,
                ),
                EventView::RunRetrying { timer_id, run_id, .. } => timer == timer_id && run
                    == Some(run_id),
                EventView::RunDead { timer_id, run_id, .. } => timer == timer_id && run == Some(
                    run_id,
                ),
            }
        }),
{
}

/// An event changes nothing of any timer but the one that it is about.
pub proof fn event_touches_only_its_timer(
    state: StateView,
    event: EventView,
    now: TimeView,
    other: Seq<char>,
)
    requires
        other != event.timer(),
    ensures
        ({
            let after = state.apply(event, now);
            &&& crate::state::found(after.specs, other) == crate::state::found(state.specs, other)
            &&& crate::state::found(after.states, other) == crate::state::found(
                state.states,
                other,
            )
            &&& crate::state::found(after.last_runs, other) == crate::state::found(
                state.last_runs,
                other,
            )
            &&& crate::state::found(after.pending_retries, other) == crate::state::found(
                state.pending_retries,
                other,
            )
            &&& crate::state::found(after.next_runs, other) == crate::state::found(
                state.next_runs,
                other,
            )
            &&& crate::state::found(after.fn_names, other) == crate::state::found(
                state.fn_names,
                other,
            )
        }),
{
}

/// An error is told by what sort of error it is and by what it is about.
pub proof fn errors_tell_what_they_are_about(error: KronErrorView)
    ensures
        match error {
            KronErrorView::InvalidCron(s) => error.message() == "invalid cron expression: "@ + s,
            KronErrorView::InvalidTimezone(s) => error.message() == "invalid timezone: "@ + s,
            KronErrorView::TimerNotFound(s) => error.message() == "timer not found: "@ + s,
            KronErrorView::LogIo(s) => error.message() == "log I/O error: "@ + s,
            KronErrorView::LogSerde(s) => error.message() == "log serialization error: "@ + s,
            KronErrorView::CorruptLog { path, line, source } => error.message()
                == "corrupt log line "@ + crate::text::decimal(line) + " in "@ + path + ": "@
                + source,
            KronErrorView::AlreadyStarted => error.message() == "engine already started"@,
            KronErrorView::AlreadyStopped => error.message()
                == "engine has already been shut down"@,
            KronErrorView::ShutdownTimeout { timeout_ms } => error.message()
                == "shutdown timed out after "@ + crate::text::decimal(timeout_ms as nat) + "ms"@,
            KronErrorView::DataDirLocked { path } => error.message()
                == "data directory is already locked: "@ + path,
            KronErrorView::InvalidSnapshot(s) => error.message() == "invalid snapshot: "@ + s,
            KronErrorView::IpcUnavailable(s) => error.message() == "IPC unavailable: "@ + s,
        },
{
}

} // verus!
