//! The life of a timer in an engine.

use vstd::prelude::*;

use crate::engine::{CallResultView, EngineView, FollowUpView};
use crate::error::KronErrorView;
use crate::event::EventView;
use crate::heap::ScheduledView;
use crate::retry::{BackoffStrategy, RetryPolicy};
use crate::schedule::ScheduleView;
use crate::timer::{OverlapPolicy, TimerSpecView, TimerState};
use crate::timestamp::TimeView;

verus! {

/// The specification of a registration has the schedule, the retry policy, the time zone and
/// the overlap policy that were asked for, wherever they were given. Where none was given it
/// has three attempts with a delay that doubles from half a minute up to an hour, the zone
/// `UTC` and the policy to delay. The time of creation is that of the first registration.
pub proof fn registration_has_what_was_asked_for(
    engine: EngineView,
    id: Seq<char>,
    schedule: ScheduleView,
    retry: Option<RetryPolicy>,
    timezone: Option<Seq<char>>,
    overlap: Option<OverlapPolicy>,
    now: TimeView,
)
    ensures
        ({
            let spec = engine.requested_spec(id, schedule, retry, timezone, overlap, now);
            &&& spec.id == id
            &&& spec.schedule == schedule
            &&& retry is Some ==> spec.retry == retry->0
            &&& timezone is Some ==> spec.timezone == timezone->0
            &&& overlap is Some ==> spec.overlap == overlap->0
            &&& retry is None ==> spec.retry.max_attempts == 3 && spec.retry.backoff
                == (BackoffStrategy::Exponential { base_seconds: 30, max_seconds: 3600 })
            &&& timezone is None ==> spec.timezone == "UTC"@
            &&& overlap is None ==> spec.overlap == OverlapPolicy::Delay
            &&& engine.state.specs.dom().contains(id) ==> spec.created_at
                == engine.state.specs[id].created_at
            &&& !engine.state.specs.dom().contains(id) ==> spec.created_at == now
        }),
{
}

/// A registration is written as the creation of a timer that is new and as the change of one
/// whose specification differs; what is written is the specification itself. One that asks
/// for what is there writes nothing.
pub proof fn registration_is_written_when_it_says_something(engine: EngineView, spec: TimerSpecView)
    ensures
        ({
            let event = engine.registration_event(spec);
            let known = engine.state.specs.dom().contains(spec.id);
            &&& !known ==> event == Some(EventView::TimerCreated { spec })
            &&& known && engine.state.specs[spec.id] == spec ==> event is None
            &&& known && engine.state.specs[spec.id] != spec ==> event == Some(
                EventView::TimerUpdated { spec },
            )
        }),
{
}

/// A timer that is registered for the first time is scheduled with its function, and its
/// first run waits at the time that its schedule gives after the registration, in the time
/// zone that was asked for; other timers wait as before.
pub proof fn first_run_is_in_the_zone_asked_for(
    engine: EngineView,
    id: Seq<char>,
    schedule: ScheduleView,
    retry: Option<RetryPolicy>,
    timezone: Seq<char>,
    overlap: Option<OverlapPolicy>,
    function: Seq<char>,
    now: TimeView,
    at: TimeView,
    other: ScheduledView,
)
    requires
        !engine.state.specs.dom().contains(id),
        !engine.state.next_runs.dom().contains(id),
        schedule.next(now, timezone) == Ok::<_, KronErrorView>(Some(at)),
        other != (ScheduledView { timer_id: id, next_run_at: at, run_id: None, attempt: 1 }),
    ensures
        ({
            let spec = engine.requested_spec(id, schedule, retry, Some(timezone), overlap, now);
            let after = engine.after_registration(
                id,
                function,
                engine.registration_event(spec),
                now,
            );
            let entry = ScheduledView { timer_id: id, next_run_at: at, run_id: None, attempt: 1 };
            &&& after.state.specs[id].timezone == timezone
            &&& after.state.specs[id].schedule == schedule
            &&& after.state.summary(id) is Some
            &&& after.state.summary(id)->0.state == TimerState::Scheduled
            &&& after.state.summary(id)->0.fn_name == Some(function)
            &&& after.state.summary(id)->0.next_run_at == Some(at)
            &&& after.heap.count(entry) == engine.heap.count(entry) + 1
            &&& after.heap.count(other) == engine.heap.count(other)
            &&& after.running == engine.running
            &&& after.runtime == engine.runtime
        }),
{
}

/// A timer that is registered again with another specification waits by the new one alone:
/// no run of it is left on the heap but the one at the time that the new schedule gives.
pub proof fn changed_timer_waits_by_its_new_schedule(
    engine: EngineView,
    spec: TimerSpecView,
    function: Seq<char>,
    now: TimeView,
    at: TimeView,
    entry: ScheduledView,
)
    requires
        engine.state.specs.dom().contains(spec.id),
        engine.state.specs[spec.id] != spec,
        spec.schedule.next(now, spec.timezone) == Ok::<_, KronErrorView>(Some(at)),
    ensures
        ({
            let after = engine.after_registration(
                spec.id,
                function,
                engine.registration_event(spec),
                now,
            );
            &&& after.state.specs[spec.id] == spec
            &&& after.state.next_runs.dom().contains(spec.id)
            &&& after.state.next_runs[spec.id] == at
            &&& after.state.fn_names[spec.id] == function
            &&& entry.timer_id == spec.id ==> (after.heap.count(entry) > 0 <==> entry.next_run_at
                == at && entry.run_id is None && entry.attempt == 1)
            &&& entry.timer_id == spec.id ==> after.heap.count(entry) <= 1
            &&& entry.timer_id != spec.id ==> after.heap.count(entry) == engine.heap.count(entry)
        }),
{
}

/// A registration that changes nothing keeps a run that waits: the heap and the next run are
/// as they were, and only the function is the new one.
pub proof fn unchanged_timer_keeps_waiting(
    engine: EngineView,
    spec: TimerSpecView,
    function: Seq<char>,
    now: TimeView,
)
    requires
        engine.state.specs.dom().contains(spec.id),
        engine.state.specs[spec.id] == spec,
        engine.state.next_runs.dom().contains(spec.id),
    ensures
        ({
            let after = engine.after_registration(
                spec.id,
                function,
                engine.registration_event(spec),
                now,
            );
            &&& after.heap == engine.heap
            &&& after.state.next_runs == engine.state.next_runs
            &&& after.state.specs == engine.state.specs
            &&& after.state.fn_names[spec.id] == function
            &&& after.state.last_runs == engine.state.last_runs
            &&& after.state.pending_retries == engine.state.pending_retries
        }),
{
}

/// A run that starts is told of as due at the time at which it waited and as started when it
/// was taken up, under its own name or, the first time, the fresh one, and as its attempt.
/// One that is skipped is told of with both times.
pub proof fn start_is_told_of(
    engine: EngineView,
    scheduled: ScheduledView,
    fresh: Seq<char>,
    now: TimeView,
)
    ensures
        ({
            let events = engine.start_events(scheduled, fresh, now);
            let name = if scheduled.run_id is Some {
                scheduled.run_id->0
            } else {
                fresh
            };
            let id = scheduled.timer_id;
            let overlaps = engine.running.dom().contains(id) && engine.running[id] > 0;
            let skips = engine.state.specs.dom().contains(id) && engine.state.specs[id].overlap
                == OverlapPolicy::Skip;
            if skips && overlaps {
                &&& events.len() == 1
                &&& events[0] == EventView::RunSkippedOverlap {
                    timer_id: id,
                    run_id: name,
                    scheduled_at: scheduled.next_run_at,
                    skipped_at: now,
                }
            } else {
                &&& events.len() == 2
                &&& events[0] == EventView::RunDue {
                    timer_id: id,
                    run_id: name,
                    scheduled_at: scheduled.next_run_at,
                }
                &&& events[1] == EventView::RunStarted {
                    timer_id: id,
                    run_id: name,
                    started_at: now,
                    attempt: scheduled.attempt,
                }
            }
        }),
{
}

/// A run that is taken up no longer waits, and is counted as active unless it is skipped.
/// With a policy that goes by the clock the next occurrence waits from then on, and it lies
/// in the future; runs of other timers are not touched.
pub proof fn taken_up_run_no_longer_waits(
    engine: EngineView,
    scheduled: ScheduledView,
    now: TimeView,
    other: Seq<char>,
    seconds: u64,
)
    requires
        engine.running_of(scheduled.timer_id) < u64::MAX,
        other != scheduled.timer_id,
        engine.state.specs.dom().contains(scheduled.timer_id),
        engine.state.specs[scheduled.timer_id].schedule == (ScheduleView::Every { seconds }),
        crate::schedule::timezone_known(engine.state.specs[scheduled.timer_id].timezone),
        seconds > 0,
        0 <= now.nanos < 1_000_000_000,
        0 <= scheduled.next_run_at.nanos < 1_000_000_000,
        !engine.closing(),
    ensures
        ({
            let id = scheduled.timer_id;
            let policy = engine.state.specs[id].overlap;
            let after = engine.taken_up(scheduled, now);
            let due = scheduled.next_run_at;
            let on_time = TimeView { secs: due.secs + seconds, nanos: due.nanos };
            let late = TimeView { secs: now.secs + seconds, nanos: now.nanos };
            let skipped = policy == OverlapPolicy::Skip && engine.running_of(id) > 0;
            let next = crate::state::found(after.state.next_runs, id);
            &&& policy == OverlapPolicy::Delay || scheduled.run_id is Some ==> next is None
            &&& policy != OverlapPolicy::Delay && scheduled.run_id is None ==> next is Some
                && now.before(next->0) && next->0 == if now.before(on_time) {
                on_time
            } else {
                late
            }
            &&& next is Some ==> after.heap == engine.heap.insert(
                ScheduledView { timer_id: id, next_run_at: next->0, run_id: None, attempt: 1 },
            )
            &&& next is None ==> after.heap == engine.heap
            &&& after.running_of(id) == engine.running_of(id) + if skipped {
                0int
            } else {
                1int
            }
            &&& after.running_of(other) == engine.running_of(other)
            &&& crate::state::found(after.state.next_runs, other) == crate::state::found(
                engine.state.next_runs,
                other,
            )
            &&& after.runtime == engine.runtime
        }),
{
}

/// A run whose function succeeded is told of as such, with its end and the milliseconds it
/// took; one that failed with its error, as the attempt it was. Where its function is not
/// there, nothing is told.
pub proof fn end_is_told_of(
    engine: EngineView,
    spec: TimerSpecView,
    run_id: Seq<char>,
    started_at: TimeView,
    error: Seq<char>,
    now: TimeView,
)
    ensures
        ({
            let succeeded = engine.end_events(
                spec,
                run_id,
                started_at,
                CallResultView::Succeeded,
                now,
            );
            let failed = engine.end_events(
                spec,
                run_id,
                started_at,
                CallResultView::Failed(error),
                now,
            );
            let missing = engine.end_events(spec, run_id, started_at, CallResultView::Missing, now);
            let attempt = if engine.state.pending_retries.dom().contains(spec.id) {
                engine.state.pending_retries[spec.id].2
            } else {
                1
            };
            &&& succeeded.len() == 1
            &&& succeeded[0] == EventView::RunSucceeded {
                timer_id: spec.id,
                run_id,
                finished_at: now,
                duration_ms: now.millis_since(started_at) as u64,
            }
            &&& failed.len() == 2
            &&& failed[0] == EventView::RunFailed {
                timer_id: spec.id,
                run_id,
                finished_at: now,
                error,
                attempt,
            }
            &&& attempt < spec.retry.max_attempts ==> failed[1] is RunRetrying && failed[1]
                == EventView::RunRetrying {
                timer_id: spec.id,
                run_id,
                attempt: (attempt + 1) as u32,
                next_retry_at: now.plus(spec.retry.backoff.delay(attempt as int)),
            }
            &&& attempt >= spec.retry.max_attempts ==> failed[1] == EventView::RunDead {
                timer_id: spec.id,
                run_id,
                at: now,
            }
            &&& missing.len() == 0
        }),
{
}

/// What an engine is once the events with which a failed run ends are written.
pub open spec fn failed_once(
    engine: EngineView,
    spec: TimerSpecView,
    run_id: Seq<char>,
    started_at: TimeView,
    error: Seq<char>,
    now: TimeView,
) -> EngineView {
    let events = engine.end_events(spec, run_id, started_at, CallResultView::Failed(error), now);
    engine.recorded(events[0], true, now).recorded(events[1], true, now)
}

/// What an engine is once a run has failed as often as given.
pub open spec fn failed_times(
    engine: EngineView,
    spec: TimerSpecView,
    run_id: Seq<char>,
    started_at: TimeView,
    error: Seq<char>,
    now: TimeView,
    times: nat,
) -> EngineView
    decreases times,
{
    if times == 0 {
        engine
    } else {
        failed_once(
            failed_times(engine, spec, run_id, started_at, error, now, (times - 1) as nat),
            spec,
            run_id,
            started_at,
            error,
            now,
        )
    }
}

/// A run gets as many attempts as its policy grants, one after the other, and dies with the
/// last: after every failure before that it is pending as the next attempt under its name.
pub proof fn run_gets_all_its_attempts(
    engine: EngineView,
    spec: TimerSpecView,
    run_id: Seq<char>,
    started_at: TimeView,
    error: Seq<char>,
    now: TimeView,
    times: nat,
)
    requires
        !engine.state.pending_retries.dom().contains(spec.id),
        1 <= times <= spec.retry.max_attempts,
    ensures
        ({
            let after = failed_times(engine, spec, run_id, started_at, error, now, times);
            let pending = crate::state::found(after.state.pending_retries, spec.id);
            &&& times < spec.retry.max_attempts ==> {
                &&& after.state.states[spec.id] == TimerState::Retrying
                &&& pending is Some
                &&& (pending->0).0 == run_id
                &&& (pending->0).2 == times + 1
            }
            &&& times == spec.retry.max_attempts ==> {
                &&& after.state.states[spec.id] == TimerState::Dead
                &&& pending is None
            }
        }),
    decreases times,
{
    if times > 1 {
        run_gets_all_its_attempts(
            engine,
            spec,
            run_id,
            started_at,
            error,
            now,
            (times - 1) as nat,
        );
    } else {
        assert(failed_times(engine, spec, run_id, started_at, error, now, 0) == engine);
    }
}

/// After a run has succeeded or died, the failure of the next run of its timer is a first
/// attempt: it is tried again if the policy grants more than one.
pub proof fn next_run_starts_afresh(
    engine: EngineView,
    spec: TimerSpecView,
    ended: EventView,
    run_id: Seq<char>,
    started_at: TimeView,
    error: Seq<char>,
    at: TimeView,
    now: TimeView,
)
    requires
        ended is RunSucceeded || ended is RunDead,
        ended.timer() == spec.id,
    ensures
        ({
            let events = engine.recorded(ended, true, at).end_events(
                spec,
                run_id,
                started_at,
                CallResultView::Failed(error),
                now,
            );
            &&& events[0] is RunFailed
            &&& events[0]->RunFailed_attempt == 1
            &&& events[1] is RunRetrying <==> spec.retry.max_attempts > 1
            &&& events[1] is RunRetrying ==> events[1]->RunRetrying_attempt == 2
        }),
{
}

/// With the policy to delay a run that succeeded, and a run that died of a timer that
/// repeats, lead to the next run: it waits at the time that the schedule gives after the end
/// of the run, in the zone of the timer.
pub proof fn finished_run_leads_to_the_next(
    engine: EngineView,
    spec: TimerSpecView,
    run_id: Seq<char>,
    error: Seq<char>,
    now: TimeView,
    at: TimeView,
)
    requires
        !engine.closing(),
        spec.overlap == OverlapPolicy::Delay,
        spec.schedule.next(now, spec.timezone) == Ok::<_, KronErrorView>(Some(at)),
    ensures
        ({
            let entry = ScheduledView {
                timer_id: spec.id,
                next_run_at: at,
                run_id: None,
                attempt: 1,
            };
            let ok = engine.settled(
                spec,
                run_id,
                engine.follow_up(spec, CallResultView::Succeeded, now),
                now,
            );
            let failed = engine.settled(
                spec,
                run_id,
                engine.follow_up(spec, CallResultView::Failed(error), now),
                now,
            );
            let attempt = if engine.state.pending_retries.dom().contains(spec.id) {
                engine.state.pending_retries[spec.id].2
            } else {
                1
            };
            let repeats = spec.schedule is Cron || spec.schedule is Every;
            &&& ok.heap == engine.heap.insert(entry)
            &&& ok.state.next_runs[spec.id] == at
            &&& attempt >= spec.retry.max_attempts && repeats ==> failed.heap
                == engine.heap.insert(entry) && failed.state.next_runs[spec.id] == at
            &&& attempt >= spec.retry.max_attempts && !repeats ==> failed == engine
        }),
{
}

/// A failed run that has attempts left waits for its next attempt under its own name, when
/// the delay of its policy has passed; the run after it is not put on the heap before.
pub proof fn failed_run_waits_for_its_retry(
    engine: EngineView,
    spec: TimerSpecView,
    run_id: Seq<char>,
    error: Seq<char>,
    now: TimeView,
)
    requires
        !engine.closing(),
    ensures
        ({
            let after = engine.settled(
                spec,
                run_id,
                engine.follow_up(spec, CallResultView::Failed(error), now),
                now,
            );
            let attempt = if engine.state.pending_retries.dom().contains(spec.id) {
                engine.state.pending_retries[spec.id].2
            } else {
                1
            };
            attempt < spec.retry.max_attempts ==> after.heap == engine.heap.insert(
                ScheduledView {
                    timer_id: spec.id,
                    next_run_at: now.plus(spec.retry.backoff.delay(attempt as int)),
                    run_id: Some(run_id),
                    attempt: (attempt + 1) as u32,
                },
            ) && after.state == engine.state
        }),
{
}

/// A run whose function is not there orphans its timer, if that was active, and puts nothing
/// on the heap.
pub proof fn run_without_function_orphans(
    engine: EngineView,
    spec: TimerSpecView,
    run_id: Seq<char>,
    now: TimeView,
)
    requires
        engine.state.states.dom().contains(spec.id),
        engine.state.states[spec.id] == TimerState::Running,
    ensures
        ({
            let after = engine.settled(
                spec,
                run_id,
                engine.follow_up(spec, CallResultView::Missing, now),
                now,
            );
            &&& after.state.states[spec.id] == TimerState::Orphaned
            &&& !after.state.fn_names.dom().contains(spec.id)
            &&& after.heap == engine.heap
            &&& after.state.specs == engine.state.specs
        }),
{
}

/// The function of a timer is called exactly if the timer is known and its function is
/// registered.
pub proof fn call_needs_timer_and_function(engine: EngineView, id: Seq<char>)
    ensures
        ({
            let known = engine.state.specs.dom().contains(id);
            let named = engine.state.fn_names.dom().contains(id);
            let step = (crate::engine::RunProgress::Found { target: engine.target(id) }).next();
            &&& step == crate::engine::RunStep::Call <==> known && named
            &&& step == crate::engine::RunStep::GoWithout <==> known && !named
            &&& step is Finish <==> !known
        }),
{
}

/// An event counts if and only if it was written: then the state is what the event makes of
/// it, and if not, nothing changes but that the engine stops.
pub proof fn only_what_is_written_counts(engine: EngineView, event: EventView, now: TimeView)
    ensures
        ({
            let (yes, no) = (engine.recorded(event, true, now), engine.recorded(event, false, now));
            &&& yes.state == engine.state.apply(event, now)
            &&& yes.heap == engine.heap && no.heap == engine.heap
            &&& yes.runtime == engine.runtime
            &&& yes.running == engine.running && no.running == engine.running
            &&& no.state == engine.state
            &&& no.runtime.stopped && no.runtime.shutting_down
            &&& no.runtime.started == engine.runtime.started
            &&& no.runtime.active_runs == engine.runtime.active_runs
        }),
{
}

/// A run that is over is one active run less, of the engine and, if it was counted there, of
/// its timer; other timers are not touched.
pub proof fn finished_run_is_one_less(
    engine: EngineView,
    timer: Seq<char>,
    other: Seq<char>,
    counted: bool,
)
    requires
        other != timer,
    ensures
        ({
            let after = engine.finished(timer, counted);
            &&& engine.runtime.active_runs > 0 ==> after.runtime.active_runs
                == engine.runtime.active_runs - 1
            &&& engine.runtime.active_runs == 0 ==> after.runtime.active_runs == 0
            &&& counted && engine.running_of(timer) > 0 ==> after.running_of(timer)
                == engine.running_of(timer) - 1
            &&& !counted || engine.running_of(timer) == 0 ==> after.running_of(timer)
                == engine.running_of(timer)
            &&& after.running_of(other) == engine.running_of(other)
            &&& after.state == engine.state && after.heap == engine.heap
            &&& after.runtime.started == engine.runtime.started
            &&& after.runtime.stopped == engine.runtime.stopped
            &&& after.runtime.shutting_down == engine.runtime.shutting_down
        }),
{
}

/// The steps of a run come in order and none is left out: its start is written event by
/// event, then its function is looked up and called, then its end is written event by event,
/// then what follows is put on the heap. An event that cannot be written ends the run.
pub proof fn steps_of_a_run_come_in_order(index: usize, events: usize, skipped: bool)
    requires
        index < events,
    ensures
        ({
            let start = (crate::engine::RunProgress::TakenUp { events, skipped }).next();
            let wrote = (crate::engine::RunProgress::StartWritten {
                index,
                events,
                skipped,
                written: true,
            }).next();
            let lost = (crate::engine::RunProgress::StartWritten {
                index,
                events,
                skipped,
                written: false,
            }).next();
            let end = (crate::engine::RunProgress::Ended { events }).next();
            let told = (crate::engine::RunProgress::EndWritten {
                index,
                events,
                written: true,
            }).next();
            let untold = (crate::engine::RunProgress::EndWritten {
                index,
                events,
                written: false,
            }).next();
            &&& start == (crate::engine::RunStep::WriteStart { index: 0 })
            &&& index + 1 < events ==> wrote == (crate::engine::RunStep::WriteStart {
                index: (index + 1) as usize,
            })
            &&& index + 1 == events && !skipped ==> wrote == crate::engine::RunStep::LookUp
            &&& index + 1 == events && skipped ==> wrote == (crate::engine::RunStep::Finish {
                counted: false,
            })
            &&& lost == (crate::engine::RunStep::Finish { counted: !skipped })
            &&& end == (crate::engine::RunStep::WriteEnd { index: 0 })
            &&& index + 1 < events ==> told == (crate::engine::RunStep::WriteEnd {
                index: (index + 1) as usize,
            })
            &&& index + 1 == events ==> told == crate::engine::RunStep::Settle
            &&& untold == (crate::engine::RunStep::Finish { counted: true })
            &&& (crate::engine::RunProgress::Settled).next() == (crate::engine::RunStep::Finish {
                counted: true,
            })
        }),
{
}

/// A run whose function was called ends unless its timer is gone or its next attempt cannot
/// be represented.
pub proof fn called_run_ends(known: bool, in_range: bool)
    ensures
        ({
            let step = (crate::engine::RunProgress::Called { known, in_range }).next();
            &&& known && in_range ==> step == crate::engine::RunStep::End
            &&& !(known && in_range) ==> step == (crate::engine::RunStep::Finish { counted: true })
        }),
{
}

/// A timer that was late runs next at the first time after now: the run after the one that was
/// due counts only if it is still to come. A schedule that gives no run, or an error, gives it
/// here too.
pub proof fn missed_runs_are_passed_over(
    engine: EngineView,
    spec: TimerSpecView,
    due_at: TimeView,
    now: TimeView,
)
    ensures
        ({
            let next = engine.following(spec, due_at, now);
            let on_time = spec.schedule.next(due_at, spec.timezone);
            let to_come = on_time is Ok && on_time->Ok_0 is Some && now.before(on_time->Ok_0->0);
            let missed = on_time is Ok && on_time->Ok_0 is Some && !now.before(on_time->Ok_0->0);
            &&& to_come ==> next == on_time
            &&& missed ==> next == spec.schedule.next(now, spec.timezone)
            &&& on_time is Err ==> next is Err && next->Err_0 == on_time->Err_0
            &&& on_time is Ok && on_time->Ok_0 is None ==> next is Ok && next->Ok_0 is None
        }),
{
}

/// A run with nothing to write of its start goes on at once, and one with nothing to write of its
/// end is settled at once.
pub proof fn nothing_to_write_is_not_written(skipped: bool)
    ensures
        (crate::engine::RunProgress::TakenUp { events: 0, skipped }).next() == if skipped {
            crate::engine::RunStep::Finish { counted: false }
        } else {
            crate::engine::RunStep::LookUp
        },
        (crate::engine::RunProgress::Ended { events: 0 }).next() == crate::engine::RunStep::Settle,
{
}

/// Whether a timer stands in one engine as in another: with its specification, its state, its
/// next run, its runs and its entries on the heap.
pub open spec fn stands_alike(a: EngineView, b: EngineView, timer: Seq<char>) -> bool {
    &&& crate::state::found(a.state.specs, timer) == crate::state::found(b.state.specs, timer)
    &&& crate::state::found(a.state.states, timer) == crate::state::found(b.state.states, timer)
    &&& crate::state::found(a.state.next_runs, timer) == crate::state::found(
        b.state.next_runs,
        timer,
    )
    &&& crate::state::found(a.state.fn_names, timer) == crate::state::found(
        b.state.fn_names,
        timer,
    )
    &&& crate::state::found(a.state.pending_retries, timer) == crate::state::found(
        b.state.pending_retries,
        timer,
    )
    &&& a.running_of(timer) == b.running_of(timer)
    &&& forall|e: ScheduledView|
        e.timer_id == timer ==> #[trigger] a.heap.count(e) == b.heap.count(e)
}

/// Whatever happens to a timer leaves every other timer as it is.
pub proof fn timers_are_left_alone_by_others(
    engine: EngineView,
    spec: TimerSpecView,
    function: Seq<char>,
    event: Option<EventView>,
    scheduled: ScheduledView,
    run_id: Seq<char>,
    follow_up: FollowUpView,
    counted: bool,
    now: TimeView,
    other: Seq<char>,
)
    requires
        other != spec.id,
        scheduled.timer_id == spec.id,
        event is Some ==> event->0.timer() == spec.id,
    ensures
        stands_alike(engine.after_registration(spec.id, function, event, now), engine, other),
        stands_alike(engine.taken_up(scheduled, now), engine, other),
        stands_alike(engine.settled(spec, run_id, follow_up, now), engine, other),
        stands_alike(engine.finished(spec.id, counted), engine, other),
        event is Some ==> stands_alike(engine.recorded(event->0, true, now), engine, other),
{
    if event is Some {
        crate::laws::names::event_touches_only_its_timer(engine.state, event->0, now, other);
    }
}

} // verus!
