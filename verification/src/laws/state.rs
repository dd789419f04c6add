//! What the events of an engine make of its state.

use vstd::prelude::*;

use crate::event::EventView;
use crate::state::StateView;
use crate::timer::{TimerSpecView, TimerState};
use crate::timestamp::TimeView;

verus! {

/// A timer that is created or changed has the specification that the event tells of, as it
/// stands. A new one has no function yet; a change keeps the lifecycle state. Neither
/// touches the runs and the retries.
pub proof fn timer_has_its_specification(state: StateView, spec: TimerSpecView, ts: TimeView)
    ensures
        ({
            let created = state.apply(EventView::TimerCreated { spec }, ts);
            let updated = state.apply(EventView::TimerUpdated { spec }, ts);
            &&& created.specs.dom().contains(spec.id) && created.specs[spec.id] == spec
            &&& updated.specs.dom().contains(spec.id) && updated.specs[spec.id] == spec
            &&& created.states.dom().contains(spec.id)
            &&& created.states[spec.id] == TimerState::Orphaned
            &&& updated.states == state.states
            &&& created.last_runs == state.last_runs && updated.last_runs == state.last_runs
            &&& created.pending_retries == state.pending_retries
            &&& updated.pending_retries == state.pending_retries
            &&& created.retries_7d == state.retries_7d && updated.retries_7d == state.retries_7d
            &&& created.retry_times == state.retry_times
            &&& updated.retry_times == state.retry_times
        }),
{
}

/// A timer that is paused, resumed or cancelled is so, and nothing else about it changes. A
/// timer that is resumed is scheduled if its function is there, and orphaned if not.
pub proof fn lifecycle_events_set_the_state(
    state: StateView,
    timer_id: Seq<char>,
    at: TimeView,
    ts: TimeView,
    event: EventView,
)
    requires
        event.timer() == timer_id,
        event is TimerPaused || event is TimerResumed || event is TimerCancelled || event is RunDue
            || event is RunStarted,
    ensures
        ({
            let next = state.apply(event, ts);
            &&& next.states.dom().contains(timer_id)
            &&& event is TimerPaused ==> next.states[timer_id] == TimerState::Paused
            &&& event is TimerCancelled ==> next.states[timer_id] == TimerState::Cancelled
            &&& event is TimerResumed ==> (next.states[timer_id] == TimerState::Scheduled
                <==> state.fn_names.dom().contains(timer_id))
            &&& event is TimerResumed ==> (next.states[timer_id] == TimerState::Orphaned
                <==> !state.fn_names.dom().contains(timer_id))
            &&& event is RunDue || event is RunStarted ==> next.states[timer_id]
                == TimerState::Running
            &&& next.specs == state.specs
            &&& next.last_runs == state.last_runs
            &&& next.pending_retries == state.pending_retries
            &&& next.retries_7d == state.retries_7d
            &&& next.retry_times == state.retry_times
        }),
{
}

/// After a success no retry of the timer is pending, the timer is scheduled, and its latest
/// run is the one that succeeded, with its end and its duration. The retries that were
/// counted stay counted.
pub proof fn success_settles_the_timer(
    state: StateView,
    timer_id: Seq<char>,
    run_id: Seq<char>,
    finished_at: TimeView,
    duration_ms: u64,
    ts: TimeView,
)
    ensures
        ({
            let next = state.apply(
                EventView::RunSucceeded { timer_id, run_id, finished_at, duration_ms },
                ts,
            );
            &&& !next.pending_retries.dom().contains(timer_id)
            &&& next.states[timer_id] == TimerState::Scheduled
            &&& next.last_runs.dom().contains(timer_id)
            &&& next.last_runs[timer_id].run_id == run_id
            &&& next.last_runs[timer_id].finished_at == finished_at
            &&& next.last_runs[timer_id].duration_ms == Some(duration_ms)
            &&& next.last_runs[timer_id].status == "OK"@
            &&& next.specs == state.specs
            &&& next.retries_7d == state.retries_7d
            &&& next.retry_times == state.retry_times
        }),
{
}

/// After a run is dead no retry of the timer is pending, the timer is dead, and its latest
/// run is the one that died.
pub proof fn death_settles_the_timer(
    state: StateView,
    timer_id: Seq<char>,
    run_id: Seq<char>,
    at: TimeView,
    ts: TimeView,
)
    ensures
        ({
            let next = state.apply(EventView::RunDead { timer_id, run_id, at }, ts);
            &&& !next.pending_retries.dom().contains(timer_id)
            &&& next.states[timer_id] == TimerState::Dead
            &&& next.last_runs.dom().contains(timer_id)
            &&& next.last_runs[timer_id].run_id == run_id
            &&& next.last_runs[timer_id].finished_at == at
            &&& next.last_runs[timer_id].duration_ms is None
            &&& next.last_runs[timer_id].status == "DEAD"@
            &&& next.specs == state.specs
            &&& next.retries_7d == state.retries_7d
            &&& next.retry_times == state.retry_times
        }),
{
}

/// A failure is told of as the latest run, with its error. It leaves the lifecycle state and
/// a retry that is pending to the event that follows it.
pub proof fn failure_is_told_of(
    state: StateView,
    timer_id: Seq<char>,
    run_id: Seq<char>,
    finished_at: TimeView,
    error: Seq<char>,
    attempt: u32,
    ts: TimeView,
)
    ensures
        ({
            let next = state.apply(
                EventView::RunFailed { timer_id, run_id, finished_at, error, attempt },
                ts,
            );
            &&& next.last_runs.dom().contains(timer_id)
            &&& next.last_runs[timer_id].run_id == run_id
            &&& next.last_runs[timer_id].finished_at == finished_at
            &&& next.last_runs[timer_id].duration_ms is None
            &&& next.last_runs[timer_id].status == "FAILED: "@ + error
            &&& next.states == state.states
            &&& next.pending_retries == state.pending_retries
            &&& next.specs == state.specs
            &&& next.retries_7d == state.retries_7d
            &&& next.retry_times == state.retry_times
        }),
{
}

/// A run that was skipped is told of as the latest run and changes nothing else: neither the
/// state of the timer, whose other run goes on, nor a retry that is pending.
pub proof fn skipped_run_is_told_of(
    state: StateView,
    timer_id: Seq<char>,
    run_id: Seq<char>,
    scheduled_at: TimeView,
    skipped_at: TimeView,
    ts: TimeView,
)
    ensures
        ({
            let next = state.apply(
                EventView::RunSkippedOverlap { timer_id, run_id, scheduled_at, skipped_at },
                ts,
            );
            &&& next.last_runs.dom().contains(timer_id)
            &&& next.last_runs[timer_id].run_id == run_id
            &&& next.last_runs[timer_id].finished_at == skipped_at
            &&& next.last_runs[timer_id].duration_ms is None
            &&& next.last_runs[timer_id].status == "SKIPPED_OVERLAP"@
            &&& next.states == state.states
            &&& next.pending_retries == state.pending_retries
            &&& next.specs == state.specs
            &&& next.retries_7d == state.retries_7d
            &&& next.retry_times == state.retry_times
        }),
{
}

/// A run that is tried again is pending under its own name, for the time and as the attempt
/// that the event tells of; it is counted once, at the time of the event.
pub proof fn retry_is_pending_and_counted(
    state: StateView,
    timer_id: Seq<char>,
    run_id: Seq<char>,
    attempt: u32,
    next_retry_at: TimeView,
    ts: TimeView,
)
    requires
        state.can_apply(EventView::RunRetrying { timer_id, run_id, attempt, next_retry_at }),
    ensures
        ({
            let next = state.apply(
                EventView::RunRetrying { timer_id, run_id, attempt, next_retry_at },
                ts,
            );
            &&& next.states[timer_id] == TimerState::Retrying
            &&& next.pending_retries.dom().contains(timer_id)
            &&& next.pending_retries[timer_id].0 == run_id
            &&& next.pending_retries[timer_id].1 == next_retry_at
            &&& next.pending_retries[timer_id].2 == attempt
            &&& next.summary(timer_id) is Some
            &&& next.summary(timer_id)->0.retries_last_7d == 1 + if state.retries_7d.dom().contains(
                timer_id,
            ) {
                state.retries_7d[timer_id] as int
            } else {
                0
            }
            &&& next.retry_times[timer_id].last() == ts
            &&& next.retry_times[timer_id].drop_last() == if state.retry_times.dom().contains(
                timer_id,
            ) {
                state.retry_times[timer_id]
            } else {
                Seq::empty()
            }
            &&& next.specs == state.specs
            &&& next.last_runs == state.last_runs
        }),
{
    let next = state.apply(
        EventView::RunRetrying { timer_id, run_id, attempt, next_retry_at },
        ts,
    );
    assert(next.retry_times[timer_id].drop_last() =~= crate::state::lookup(
        state.retry_times,
        timer_id,
        Seq::empty(),
    ));
}

/// The number of retries that is shown of a timer is that of the times that are kept, from
/// the first event on.
pub proof fn retries_are_counted_by_their_times(
    log: Seq<crate::event::LogEntryView>,
    timer: Seq<char>,
)
    requires
        StateView::empty().can_replay(log),
    ensures
        ({
            let state = StateView::empty().replay(log);
            &&& state.retry_times.dom().contains(timer) <==> state.retries_7d.dom().contains(timer)
            &&& state.retry_times.dom().contains(timer) ==> state.retries_7d[timer]
                == state.retry_times[timer].len()
        }),
    decreases log.len(),
{
    if log.len() > 0 {
        retries_are_counted_by_their_times(log.drop_last(), timer);
    }
}

/// Pruning lets go of the retries that were made more than seven days ago, and of no others;
/// nothing else of the state changes.
pub proof fn pruning_is_by_seven_days(
    state: StateView,
    timer: Seq<char>,
    now: TimeView,
    at: TimeView,
)
    requires
        state.retry_times.dom().contains(timer),
        state.retries_7d.dom().contains(timer),
        state.retry_times[timer].len() <= u32::MAX,
        state.retry_times[timer].contains(at),
        0 <= now.nanos < 1_000_000_000,
        0 <= at.nanos < 1_000_000_000,
    ensures
        ({
            let after = state.pruned(now);
            let horizon = TimeView { secs: now.secs - 7 * 24 * 60 * 60, nanos: now.nanos };
            &&& after.retry_times[timer].contains(at) <==> horizon.not_after(at)
            &&& after.summary(timer) is Some ==> after.summary(timer)->0.retries_last_7d
                == after.retry_times[timer].len()
            &&& after.specs == state.specs && after.states == state.states
            &&& after.last_runs == state.last_runs && after.next_runs == state.next_runs
            &&& after.pending_retries == state.pending_retries
            &&& after.fn_names == state.fn_names
        }),
{
    crate::state::pruning_keeps_recent_retries(state, timer, now, at);
}

/// A list of timers shows each of the given ones that has a lifecycle state, once for each
/// time it is given and in the given order, and nothing else.
pub proof fn list_shows_every_timer(state: StateView, keys: Seq<Seq<char>>, i: int)
    requires
        0 <= i < keys.len(),
        forall|k: int| 0 <= k < keys.len() ==> state.states.dom().contains(#[trigger] keys[k]),
    ensures
        state.listed(keys).len() == keys.len(),
        Some(state.listed(keys)[i]) == state.summary(keys[i]),
        state.listed(keys)[i].id == keys[i],
    decreases keys.len(),
{
    let front = keys.drop_last();
    assert forall|k: int| 0 <= k < front.len() implies state.states.dom().contains(
        #[trigger] front[k],
    ) by {
        assert(front[k] == keys[k]);
    }
    if front.len() > 0 {
        list_shows_every_timer(state, front, if i < front.len() { i } else { 0 });
    } else {
        assert(state.listed(front).len() == 0);
    }
}

/// The summary of a timer shows what is known of it, and there is one for every timer with a
/// lifecycle state.
pub proof fn summary_shows_the_state(state: StateView, id: Seq<char>)
    ensures
        state.summary(id) is Some <==> state.states.dom().contains(id),
        state.summary(id) is Some ==> {
            let shown = state.summary(id)->0;
            &&& shown.id == id
            &&& shown.state == state.states[id]
            &&& shown.fn_name is Some <==> state.fn_names.dom().contains(id)
            &&& shown.fn_name is Some ==> shown.fn_name->0 == state.fn_names[id]
            &&& shown.next_run_at is Some <==> state.next_runs.dom().contains(id)
            &&& shown.next_run_at is Some ==> shown.next_run_at->0 == state.next_runs[id]
            &&& !state.last_runs.dom().contains(id) ==> shown.last_run_at is None
                && shown.last_status is None && shown.last_duration_ms is None
            &&& state.last_runs.dom().contains(id) ==> {
                &&& shown.last_run_at == Some(state.last_runs[id].finished_at)
                &&& shown.last_status == Some(state.last_runs[id].status)
                &&& shown.last_duration_ms == state.last_runs[id].duration_ms
            }
            &&& !state.retries_7d.dom().contains(id) ==> shown.retries_last_7d == 0
            &&& state.retries_7d.dom().contains(id) ==> shown.retries_last_7d
                == state.retries_7d[id]
        },
{
}

/// A function that is registered is the one of its timer from then on: an orphaned or new
/// timer is scheduled, any other keeps its state. Taking it away orphans a timer that was
/// active and leaves a paused, cancelled or dead one as it is. Nothing else changes.
pub proof fn functions_come_and_go(
    state: StateView,
    timer: Seq<char>,
    function: Seq<char>,
    other: Seq<char>,
)
    requires
        other != timer,
    ensures
        ({
            let with = state.register(timer, function);
            let without = state.unregister(timer);
            let known = state.states.dom().contains(timer);
            let before = state.states[timer];
            let active = known && (before == TimerState::Scheduled || before
                == TimerState::Retrying || before == TimerState::Running);
            &&& with.fn_names.dom().contains(timer) && with.fn_names[timer] == function
            &&& with.states.dom().contains(timer)
            &&& with.states[timer] != TimerState::Orphaned
            &&& known && before != TimerState::Orphaned ==> with.states[timer] == before
            &&& !known || before == TimerState::Orphaned ==> with.states[timer]
                == TimerState::Scheduled
            &&& !without.fn_names.dom().contains(timer)
            &&& active ==> without.states[timer] == TimerState::Orphaned
            &&& !active ==> without.states == state.states
            &&& crate::state::found(with.fn_names, other) == crate::state::found(
                state.fn_names,
                other,
            )
            &&& crate::state::found(without.fn_names, other) == crate::state::found(
                state.fn_names,
                other,
            )
            &&& crate::state::found(with.states, other) == crate::state::found(state.states, other)
            &&& crate::state::found(without.states, other) == crate::state::found(
                state.states,
                other,
            )
            &&& with.specs == state.specs && without.specs == state.specs
            &&& with.next_runs == state.next_runs && without.next_runs == state.next_runs
            &&& with.last_runs == state.last_runs && without.last_runs == state.last_runs
            &&& with.pending_retries == state.pending_retries
            &&& without.pending_retries == state.pending_retries
        }),
{
}

/// After a restart the specifications, the latest runs and the retries are what they were;
/// every timer is orphaned until its function is registered, and none has a next run.
pub proof fn restart_keeps_what_was_written(state: StateView, id: Seq<char>)
    requires
        state.specs.dom().contains(id),
    ensures
        ({
            let reopened = state.reopened();
            &&& reopened.specs == state.specs
            &&& reopened.last_runs == state.last_runs
            &&& reopened.pending_retries == state.pending_retries
            &&& reopened.retries_7d == state.retries_7d
            &&& reopened.retry_times == state.retry_times
            &&& reopened.next_runs == Map::<Seq<char>, TimeView>::empty()
            &&& reopened.states.dom().contains(id)
            &&& reopened.states[id] == TimerState::Orphaned
        }),
{
}

/// A state begins with no timer, no function, no run and no retry.
pub proof fn state_begins_empty(id: Seq<char>)
    ensures
        ({
            let state = StateView::empty();
            &&& !state.specs.dom().contains(id) && !state.states.dom().contains(id)
            &&& !state.fn_names.dom().contains(id)
            &&& !state.last_runs.dom().contains(id) && !state.next_runs.dom().contains(id)
            &&& !state.retries_7d.dom().contains(id) && !state.retry_times.dom().contains(id)
            &&& !state.pending_retries.dom().contains(id)
        }),
{
}

} // verus!
