//! The decisions of the embedded engine: what is written to the log, what waits for its
//! time, and what a finished run leads to. Writing the log, calling the functions of the
//! timers and sleeping are up to the caller.

use vstd::multiset::Multiset;
use vstd::prelude::*;

use crate::error::{KronError, KronErrorView};
use crate::event::{Event, EventView};
use crate::heap::{ScheduledTimer, ScheduledView, TimerHeap};
use crate::retry::RetryPolicy;
use crate::schedule::Schedule;
use crate::state::{EngineState, StateView};
use crate::strmap::StrMap;
use crate::text::{concat, same};
use crate::timer::{
    OverlapPolicy,
    RunId,
    TimerId,
    TimerSpec,
    TimerSpecView,
    TimerState,
    TimerSummary,
    TimerSummaryView,
};
use crate::timestamp::{TimeView, Timestamp};

verus! {

/// What an engine calls when a timer fires.
pub trait TimerFn: Send + Sync + 'static {
    /// Whether the function may be called for a run of a timer.
    spec fn admits(&self, timer_id: &TimerId, run_id: &RunId) -> bool;

    /// Does the work of a run, or says why it failed.
    fn call(&self, timer_id: &TimerId, run_id: &RunId) -> Result<(), String>
        requires
            self.admits(timer_id, run_id),
    ;

    /// The name of the function.
    fn name(&self) -> String;
}

/// A closure as the function of a timer.
pub struct FnTimer<F> {
    pub name: String,
    pub f: F,
}

impl<F: Fn(&TimerId, &RunId) -> Result<(), String>> FnTimer<F> {
    /// The closure under the given name.
    pub fn new(name: &str, f: F) -> (r: Self)
        ensures
            r.name@ == name@,
            r.f == f,
    {
        FnTimer { name: name.to_owned(), f }
    }
}

impl<F: Fn(&TimerId, &RunId) -> Result<(), String> + Send + Sync + 'static> TimerFn for FnTimer<F> {
    open spec fn admits(&self, timer_id: &TimerId, run_id: &RunId) -> bool {
        call_requires(self.f, (timer_id, run_id))
    }

    fn call(&self, timer_id: &TimerId, run_id: &RunId) -> (r: Result<(), String>)
        ensures
            call_ensures(self.f, (timer_id, run_id), r),
    {
        (self.f)(timer_id, run_id)
    }

    fn name(&self) -> (r: String)
        ensures
            r@ == self.name@,
    {
        self.name.clone()
    }
}

/// Where an engine is in its life.
#[derive(Debug, Clone, Copy, PartialEq, Eq, Structural)]
pub struct RuntimeState {
    pub started: bool,
    pub stopped: bool,
    pub shutting_down: bool,
    pub active_runs: usize,
}

impl RuntimeState {
    /// An engine that has not been started.
    pub fn new() -> (r: Self)
        ensures
            r == (RuntimeState {
                started: false,
                stopped: false,
                shutting_down: false,
                active_runs: 0,
            }),
    {
        RuntimeState { started: false, stopped: false, shutting_down: false, active_runs: 0 }
    }
}

/// An engine between two steps.
pub struct Engine {
    pub state: EngineState,
    pub heap: TimerHeap,
    pub runtime: RuntimeState,
    /// How many runs of each timer are active.
    pub running: StrMap<u64>,
    pub data_dir: String,
    pub lock_path: String,
}

/// An [`Engine`] as a mathematical value.
#[verifier::ext_equal]
pub struct EngineView {
    pub state: StateView,
    pub heap: Multiset<ScheduledView>,
    pub runtime: RuntimeState,
    pub running: Map<Seq<char>, u64>,
    pub data_dir: Seq<char>,
    pub lock_path: Seq<char>,
}

impl View for Engine {
    type V = EngineView;

    open spec fn view(&self) -> EngineView {
        EngineView {
            state: self.state@,
            heap: self.heap@,
            runtime: self.runtime,
            running: self.running@,
            data_dir: self.data_dir@,
            lock_path: self.lock_path@,
        }
    }
}

/// What a run has to write first, and under which name it goes.
pub struct RunStart {
    pub run_id: RunId,
    pub started_at: Timestamp,
    /// The events to write, in order.
    pub events: Vec<Event>,
    /// Whether the run ends here because another run of the timer is active.
    pub skipped: bool,
}

/// What is known of the function of a timer.
#[derive(Debug, Clone, Copy, PartialEq, Eq, Structural)]
pub enum CallTarget {
    /// The timer is not known.
    Unknown,
    /// No function is registered for the timer.
    Missing,
    /// The function is there to be called.
    Registered,
}

/// How far a run has come.
#[derive(Debug, Clone, Copy, PartialEq, Eq, Structural)]
pub enum RunProgress {
    /// The run was taken up, with so many events to write first.
    TakenUp { events: usize, skipped: bool },
    /// An event of the start was, or could not be, written.
    StartWritten { index: usize, events: usize, skipped: bool, written: bool },
    /// The function was looked up.
    Found { target: CallTarget },
    /// The function was called, or was not there. Whether the timer still is, and whether
    /// the time of the next attempt, if there is one, can be represented.
    Called { known: bool, in_range: bool },
    /// It is decided how the run ends, with so many events to write.
    Ended { events: usize },
    /// An event of the end was, or could not be, written.
    EndWritten { index: usize, events: usize, written: bool },
    /// What follows the run was put on the heap.
    Settled,
}

/// What a run does next.
#[derive(Debug, Clone, Copy, PartialEq, Eq, Structural)]
pub enum RunStep {
    /// Write the event of the start at the position.
    WriteStart { index: usize },
    /// Look up the function.
    LookUp,
    /// Call the function.
    Call,
    /// Go on without a function to call.
    GoWithout,
    /// Decide how the run ends.
    End,
    /// Write the event of the end at the position.
    WriteEnd { index: usize },
    /// Put what follows the run on the heap.
    Settle,
    /// Count the run as over, as one that ran if `counted`.
    Finish { counted: bool },
}

impl RunProgress {
    /// What a run does once its start is written: it ends there if it is skipped.
    pub open spec fn begun(skipped: bool) -> RunStep {
        if skipped {
            RunStep::Finish { counted: false }
        } else {
            RunStep::LookUp
        }
    }

    /// What a run does next. A run whose event cannot be written, whose timer is gone or
    /// whose next attempt is out of range is over.
    pub open spec fn next(self) -> RunStep {
        match self {
            RunProgress::TakenUp { events, skipped } => if events > 0 {
                RunStep::WriteStart { index: 0 }
            } else {
                RunProgress::begun(skipped)
            },
            RunProgress::StartWritten { index, events, skipped, written } => if !written {
                RunStep::Finish { counted: !skipped }
            } else if index + 1 < events {
                RunStep::WriteStart { index: (index + 1) as usize }
            } else {
                RunProgress::begun(skipped)
            },
            RunProgress::Found { target } => match target {
                CallTarget::Unknown => RunStep::Finish { counted: true },
                CallTarget::Missing => RunStep::GoWithout,
                CallTarget::Registered => RunStep::Call,
            },
            RunProgress::Called { known, in_range } => if known && in_range {
                RunStep::End
            } else {
                RunStep::Finish { counted: true }
            },
            RunProgress::Ended { events } => if events > 0 {
                RunStep::WriteEnd { index: 0 }
            } else {
                RunStep::Settle
            },
            RunProgress::EndWritten { index, events, written } => if !written {
                RunStep::Finish { counted: true }
            } else if index + 1 < events {
                RunStep::WriteEnd { index: (index + 1) as usize }
            } else {
                RunStep::Settle
            },
            RunProgress::Settled => RunStep::Finish { counted: true },
        }
    }

    /// What a run does next.
    pub fn next_step(&self) -> (r: RunStep)
        ensures
            r == self.next(),
    {
        match *self {
            RunProgress::TakenUp { events, skipped } => if events > 0 {
                RunStep::WriteStart { index: 0 }
            } else if skipped {
                RunStep::Finish { counted: false }
            } else {
                RunStep::LookUp
            },
            RunProgress::StartWritten { index, events, skipped, written } => if !written {
                RunStep::Finish { counted: !skipped }
            } else if index < events && index < events - 1 {
                RunStep::WriteStart { index: index + 1 }
            } else if skipped {
                RunStep::Finish { counted: false }
            } else {
                RunStep::LookUp
            },
            RunProgress::Found { target } => match target {
                CallTarget::Unknown => RunStep::Finish { counted: true },
                CallTarget::Missing => RunStep::GoWithout,
                CallTarget::Registered => RunStep::Call,
            },
            RunProgress::Called { known, in_range } => if known && in_range {
                RunStep::End
            } else {
                RunStep::Finish { counted: true }
            },
            RunProgress::Ended { events } => if events > 0 {
                RunStep::WriteEnd { index: 0 }
            } else {
                RunStep::Settle
            },
            RunProgress::EndWritten { index, events, written } => if !written {
                RunStep::Finish { counted: true }
            } else if index < events && index < events - 1 {
                RunStep::WriteEnd { index: index + 1 }
            } else {
                RunStep::Settle
            },
            RunProgress::Settled => RunStep::Finish { counted: true },
        }
    }
}

/// How a run ended.
pub enum CallResult {
    /// The function returned.
    Succeeded,
    /// The function failed, with the reason.
    Failed(String),
    /// There was no function to call.
    Missing,
}

/// A [`CallResult`] as a mathematical value.
pub enum CallResultView {
    Succeeded,
    Failed(Seq<char>),
    Missing,
}

impl View for CallResult {
    type V = CallResultView;

    open spec fn view(&self) -> CallResultView {
        match self {
            CallResult::Succeeded => CallResultView::Succeeded,
            CallResult::Failed(reason) => CallResultView::Failed(reason@),
            CallResult::Missing => CallResultView::Missing,
        }
    }
}

/// What is left to do once the events of a finished run are written.
pub enum FollowUp {
    Nothing,
    /// The next run is computed from now on.
    Reschedule,
    /// The run is tried again.
    Retry { at: Timestamp, attempt: u32 },
    /// The timer has no function any more.
    Orphan,
}

/// A [`FollowUp`] as a mathematical value.
pub enum FollowUpView {
    Nothing,
    Reschedule,
    Retry { at: TimeView, attempt: u32 },
    Orphan,
}

impl View for FollowUp {
    type V = FollowUpView;

    open spec fn view(&self) -> FollowUpView {
        match self {
            FollowUp::Nothing => FollowUpView::Nothing,
            FollowUp::Reschedule => FollowUpView::Reschedule,
            FollowUp::Retry { at, attempt } => FollowUpView::Retry { at: at@, attempt: *attempt },
            FollowUp::Orphan => FollowUpView::Orphan,
        }
    }
}

/// What a finished run leads to.
pub struct RunEnd {
    /// The events to write, in order.
    pub events: Vec<Event>,
    pub follow_up: FollowUp,
}

/// How to go on with a shutdown.
#[derive(Debug, Clone, Copy, PartialEq, Eq, Structural)]
pub enum ShutdownStep {
    /// The engine has stopped.
    Done,
    /// The engine stops once no run is active.
    Wait,
}

/// The lifecycle states after a restart: every timer with a specification is orphaned.
pub open spec fn orphaned(
    specs: Map<Seq<char>, TimerSpecView>,
    states: Map<Seq<char>, TimerState>,
) -> Map<Seq<char>, TimerState> {
    Map::new(
        |id: Seq<char>| specs.dom().contains(id) || states.dom().contains(id),
        |id: Seq<char>|
            if specs.dom().contains(id) {
                TimerState::Orphaned
            } else {
                states[id]
            },
    )
}

impl StateView {
    /// The state after a restart: no function is registered yet, so every timer is
    /// orphaned and none has a next run.
    pub open spec fn reopened(self) -> StateView {
        StateView {
            states: orphaned(self.specs, self.states),
            next_runs: Map::empty(),
            ..self
        }
    }

    /// What is shown of the timers, in the order of the given keys.
    pub open spec fn listed(self, keys: Seq<Seq<char>>) -> Seq<TimerSummaryView>
        decreases keys.len(),
    {
        if keys.len() == 0 {
            Seq::empty()
        } else {
            let front = self.listed(keys.drop_last());
            match self.summary(keys.last()) {
                Some(summary) => front.push(summary),
                None => front,
            }
        }
    }
}

impl EngineView {
    /// Whether no further run may be put on the heap.
    pub open spec fn closing(self) -> bool {
        self.runtime.shutting_down || self.runtime.stopped
    }

    /// How many runs of a timer are active.
    pub open spec fn running_of(self, timer: Seq<char>) -> u64 {
        crate::state::lookup(self.running, timer, 0u64)
    }

    /// The overlap policy of a timer.
    pub open spec fn overlap_of(self, timer: Seq<char>) -> OverlapPolicy {
        if self.state.specs.dom().contains(timer) {
            self.state.specs[timer].overlap
        } else {
            OverlapPolicy::Delay
        }
    }

    /// The engine with a new run of a timer on the heap.
    pub open spec fn with_next(self, timer: Seq<char>, at: TimeView) -> EngineView {
        EngineView {
            state: StateView { next_runs: self.state.next_runs.insert(timer, at), ..self.state },
            heap: self.heap.insert(
                ScheduledView { timer_id: timer, next_run_at: at, run_id: None, attempt: 1 },
            ),
            ..self
        }
    }

    /// The engine without a next run of a timer.
    pub open spec fn without_next(self, timer: Seq<char>) -> EngineView {
        EngineView {
            state: StateView { next_runs: self.state.next_runs.remove(timer), ..self.state },
            ..self
        }
    }

    /// The engine with the next run of a timer as computed, unless it is closing.
    pub open spec fn enqueue(
        self,
        timer: Seq<char>,
        next: Result<Option<TimeView>, KronErrorView>,
    ) -> EngineView {
        if self.closing() {
            self
        } else {
            match next {
                Ok(Some(at)) => self.with_next(timer, at),
                _ => self.without_next(timer),
            }
        }
    }

    /// Whether something was put on the heap, so that a sleeping loop has to look again.
    pub open spec fn wakes(self, next: Result<Option<TimeView>, KronErrorView>) -> bool {
        !self.closing() && next is Ok && next->Ok_0 is Some
    }

    /// The specification that a registration asks for. The time of creation stays.
    pub open spec fn requested_spec(
        self,
        id: Seq<char>,
        schedule: crate::schedule::ScheduleView,
        retry: Option<RetryPolicy>,
        timezone: Option<Seq<char>>,
        overlap: Option<OverlapPolicy>,
        now: TimeView,
    ) -> TimerSpecView {
        TimerSpecView {
            id,
            schedule,
            retry: match retry {
                Some(policy) => policy,
                None => RetryPolicy {
                    max_attempts: 3,
                    backoff: crate::retry::BackoffStrategy::Exponential {
                        base_seconds: 30,
                        max_seconds: 3600,
                    },
                },
            },
            timezone: match timezone {
                Some(name) => name,
                None => "UTC"@,
            },
            created_at: if self.state.specs.dom().contains(id) {
                self.state.specs[id].created_at
            } else {
                now
            },
            overlap: match overlap {
                Some(policy) => policy,
                None => OverlapPolicy::Delay,
            },
        }
    }

    /// The event that has to be written for a timer to have the specification.
    pub open spec fn registration_event(self, spec: TimerSpecView) -> Option<EventView> {
        if !self.state.specs.dom().contains(spec.id) {
            Some(EventView::TimerCreated { spec })
        } else if self.state.specs[spec.id] != spec {
            Some(EventView::TimerUpdated { spec })
        } else {
            None
        }
    }

    /// Whether the event is one of a registration of the timer.
    pub open spec fn registers(self, id: Seq<char>, event: Option<EventView>) -> bool {
        match event {
            Some(EventView::TimerCreated { spec }) => spec.id == id,
            Some(EventView::TimerUpdated { spec }) => spec.id == id,
            Some(_) => false,
            None => self.state.specs.dom().contains(id),
        }
    }

    /// The engine once the event of a registration is written, before the next run is
    /// computed. A change of the specification takes the runs that wait off the heap.
    pub open spec fn registered(
        self,
        id: Seq<char>,
        function: Seq<char>,
        event: Option<EventView>,
        now: TimeView,
    ) -> EngineView {
        let applied = match event {
            Some(e) => self.state.apply(e, now),
            None => self.state,
        };
        if event is Some && event->0 is TimerUpdated {
            EngineView {
                state: (StateView { next_runs: applied.next_runs.remove(id), ..applied }).register(
                    id,
                    function,
                ),
                heap: self.heap.filter(crate::heap::of_others(id)),
                ..self
            }
        } else {
            EngineView { state: applied.register(id, function), ..self }
        }
    }

    /// The engine after a registration: a timer without a next run gets one.
    pub open spec fn after_registration(
        self,
        id: Seq<char>,
        function: Seq<char>,
        event: Option<EventView>,
        now: TimeView,
    ) -> EngineView {
        let next = self.registered(id, function, event, now);
        if next.state.next_runs.dom().contains(id) {
            next
        } else {
            let spec = next.state.specs[id];
            match spec.schedule.next(now, spec.timezone) {
                Ok(Some(at)) => next.with_next(id, at),
                _ => next,
            }
        }
    }

    /// Whether a run is skipped because another run of the timer is active.
    pub open spec fn skips(self, timer: Seq<char>) -> bool {
        self.overlap_of(timer) == OverlapPolicy::Skip && self.running_of(timer) > 0
    }

    /// Whether the clock of a timer goes on when the run becomes due, rather than when it
    /// has finished. A run that is tried again has left its place in the schedule.
    pub open spec fn clock_goes_on(self, scheduled: ScheduledView) -> bool {
        scheduled.run_id is None && self.overlap_of(scheduled.timer_id) != OverlapPolicy::Delay
    }

    /// The occurrence that follows one that was due, leaving out those that have passed.
    pub open spec fn following(self, spec: TimerSpecView, due_at: TimeView, now: TimeView) -> Result<
        Option<TimeView>,
        KronErrorView,
    > {
        match spec.schedule.next(due_at, spec.timezone) {
            Ok(Some(at)) => if at.not_after(now) {
                spec.schedule.next(now, spec.timezone)
            } else {
                Ok(Some(at))
            },
            other => other,
        }
    }

    /// The name under which a run goes: its own, or the fresh one.
    pub open spec fn run_name(scheduled: ScheduledView, fresh: Seq<char>) -> Seq<char> {
        match scheduled.run_id {
            Some(id) => id,
            None => fresh,
        }
    }

    /// The events with which a run starts, or is skipped.
    pub open spec fn start_events(
        self,
        scheduled: ScheduledView,
        fresh: Seq<char>,
        now: TimeView,
    ) -> Seq<EventView> {
        let run_id = EngineView::run_name(scheduled, fresh);
        if self.skips(scheduled.timer_id) {
            seq![
                EventView::RunSkippedOverlap {
                    timer_id: scheduled.timer_id,
                    run_id,
                    scheduled_at: scheduled.next_run_at,
                    skipped_at: now,
                },
            ]
        } else {
            seq![
                EventView::RunDue {
                    timer_id: scheduled.timer_id,
                    run_id,
                    scheduled_at: scheduled.next_run_at,
                },
                EventView::RunStarted {
                    timer_id: scheduled.timer_id,
                    run_id,
                    started_at: now,
                    attempt: scheduled.attempt,
                },
            ]
        }
    }

    /// The engine once a run that became due is taken up, before its events are written.
    pub open spec fn taken_up(self, scheduled: ScheduledView, now: TimeView) -> EngineView {
        let timer = scheduled.timer_id;
        let cleared = self.without_next(timer);
        let ticking = if self.clock_goes_on(scheduled) {
            cleared.enqueue(
                timer,
                self.following(self.state.specs[timer], scheduled.next_run_at, now),
            )
        } else {
            cleared
        };
        if self.skips(timer) {
            ticking
        } else {
            EngineView {
                running: self.running.insert(timer, (self.running_of(timer) + 1) as u64),
                ..ticking
            }
        }
    }

    /// Whether the run can be taken up: the next occurrence can be computed, and the run
    /// can be counted.
    pub open spec fn can_take_up(self, scheduled: ScheduledView, now: TimeView) -> bool {
        &&& self.clock_goes_on(scheduled) ==> {
            let spec = self.state.specs[scheduled.timer_id];
            &&& spec.schedule.can_run_after(scheduled.next_run_at, spec.timezone)
            &&& spec.schedule.can_run_after(now, spec.timezone)
        }
        &&& self.running_of(scheduled.timer_id) < u64::MAX
    }

    /// What is known of the function of a timer.
    pub open spec fn target(self, timer: Seq<char>) -> CallTarget {
        if !self.state.specs.dom().contains(timer) {
            CallTarget::Unknown
        } else if !self.state.fn_names.dom().contains(timer) {
            CallTarget::Missing
        } else {
            CallTarget::Registered
        }
    }

    /// As which attempt a failed run counts.
    pub open spec fn attempt_of(self, timer: Seq<char>) -> u32 {
        if self.state.pending_retries.dom().contains(timer) {
            self.state.pending_retries[timer].2
        } else {
            1
        }
    }

    /// The events that a finished run writes.
    pub open spec fn end_events(
        self,
        spec: TimerSpecView,
        run_id: Seq<char>,
        started_at: TimeView,
        result: CallResultView,
        now: TimeView,
    ) -> Seq<EventView> {
        match result {
            CallResultView::Succeeded => seq![
                EventView::RunSucceeded {
                    timer_id: spec.id,
                    run_id,
                    finished_at: now,
                    duration_ms: now.millis_since(started_at) as u64,
                },
            ],
            CallResultView::Failed(error) => {
                let attempt = self.attempt_of(spec.id);
                let failed = EventView::RunFailed {
                    timer_id: spec.id,
                    run_id,
                    finished_at: now,
                    error,
                    attempt,
                };
                match spec.retry.retry_at(now, attempt as int) {
                    Some(at) => seq![
                        failed,
                        EventView::RunRetrying {
                            timer_id: spec.id,
                            run_id,
                            attempt: (attempt + 1) as u32,
                            next_retry_at: at,
                        },
                    ],
                    None => seq![failed, EventView::RunDead { timer_id: spec.id, run_id, at: now }],
                }
            },
            CallResultView::Missing => seq![],
        }
    }

    /// What is left to do once a finished run is written down.
    pub open spec fn follow_up(
        self,
        spec: TimerSpecView,
        result: CallResultView,
        now: TimeView,
    ) -> FollowUpView {
        let on_finish = if spec.overlap == OverlapPolicy::Delay {
            FollowUpView::Reschedule
        } else {
            FollowUpView::Nothing
        };
        match result {
            CallResultView::Succeeded => on_finish,
            CallResultView::Failed(_) => {
                let attempt = self.attempt_of(spec.id);
                match spec.retry.retry_at(now, attempt as int) {
                    Some(at) => FollowUpView::Retry { at, attempt: (attempt + 1) as u32 },
                    None => if spec.schedule.one_shot() {
                        FollowUpView::Nothing
                    } else {
                        on_finish
                    },
                }
            },
            CallResultView::Missing => FollowUpView::Orphan,
        }
    }

    /// The engine once what a finished run leads to is done.
    pub open spec fn settled(
        self,
        spec: TimerSpecView,
        run_id: Seq<char>,
        follow_up: FollowUpView,
        now: TimeView,
    ) -> EngineView {
        match follow_up {
            FollowUpView::Nothing => self,
            FollowUpView::Reschedule => self.enqueue(
                spec.id,
                spec.schedule.next(now, spec.timezone),
            ),
            FollowUpView::Retry { at, attempt } => if self.closing() {
                self
            } else {
                EngineView {
                    heap: self.heap.insert(
                        ScheduledView {
                            timer_id: spec.id,
                            next_run_at: at,
                            run_id: Some(run_id),
                            attempt,
                        },
                    ),
                    ..self
                }
            },
            FollowUpView::Orphan => EngineView { state: self.state.unregister(spec.id), ..self },
        }
    }

    /// The engine once an event was, or could not be, written to the log. An event that
    /// is not in the log must not count, so the engine stops.
    pub open spec fn recorded(self, event: EventView, written: bool, now: TimeView) -> EngineView {
        if written {
            EngineView { state: self.state.apply(event, now), ..self }
        } else {
            EngineView {
                runtime: RuntimeState { shutting_down: true, stopped: true, ..self.runtime },
                ..self
            }
        }
    }

    /// The engine once a run is over.
    pub open spec fn finished(self, timer: Seq<char>, counted: bool) -> EngineView {
        let active = self.runtime.active_runs;
        let running = self.running_of(timer);
        EngineView {
            runtime: RuntimeState {
                active_runs: if active > 0 {
                    (active - 1) as usize
                } else {
                    0
                },
                ..self.runtime
            },
            running: if !counted || running == 0 {
                self.running
            } else if running == 1 {
                self.running.remove(timer)
            } else {
                self.running.insert(timer, (running - 1) as u64)
            },
            ..self
        }
    }
}

/// Whether two specifications are the same.
fn same_spec(a: &TimerSpec, b: &TimerSpec) -> (r: bool)
    ensures
        r == (a@ == b@),
{
    same(a.id.as_str(), b.id.as_str()) && a.schedule.same(&b.schedule) && a.retry == b.retry
        && same(&a.timezone, &b.timezone) && a.created_at.same(&b.created_at) && a.overlap
        == b.overlap
}

impl Engine {
    /// The engine of a data directory, with the state that was loaded from it.
    pub fn open(data_dir: &str, state: EngineState) -> (r: Self)
        ensures
            r@ == (EngineView {
                state: state@.reopened(),
                heap: Multiset::empty(),
                runtime: RuntimeState {
                    started: false,
                    stopped: false,
                    shutting_down: false,
                    active_runs: 0,
                },
                running: Map::empty(),
                data_dir: data_dir@,
                lock_path: crate::paths::joined(data_dir@, "kron.lock"@),
            }),
    {
        let mut state = state;
        let ghost loaded = state@;
        state.next_runs = StrMap::new();
        let n: usize = state.specs.len();
        let ghost order = state.specs.order();
        let mut i: usize = 0;
        while i < n
            invariant
                n == order.len(),
                i <= n,
                order == state.specs.order(),
                forall|id: Seq<char>| #[trigger]
                    loaded.specs.dom().contains(id) <==> order.contains(id),
                state@ == (StateView { states: state@.states, next_runs: Map::empty(), ..loaded }),
                forall|id: Seq<char>| #[trigger]
                    state@.states.dom().contains(id) <==> loaded.states.dom().contains(id)
                        || order.take(i as int).contains(id),
                forall|id: Seq<char>| #[trigger]
                    state@.states.dom().contains(id) ==> state@.states[id] == (if order.take(
                        i as int,
                    ).contains(id) {
                        TimerState::Orphaned
                    } else {
                        loaded.states[id]
                    }),
            decreases n - i,
        {
            let id = state.specs.key_at(i).clone();
            proof {
                let (now, next) = (order.take(i as int), order.take(i + 1));
                assert(next == now.push(id@));
                assert(next[i as int] == id@);
                assert forall|x: Seq<char>| #[trigger] next.contains(x) <==> now.contains(x) || x
                    == id@ by {
                    if now.contains(x) {
                        assert(next[now.index_of(x)] == x);
                    }
                    if next.contains(x) && x != id@ {
                        let k = next.index_of(x);
                        assert(now[k] == x);
                    }
                }
            }
            state.states.insert(id, TimerState::Orphaned);
            i = i + 1;
        }
        proof {
            assert(order.take(n as int) == order);
            assert(state@.states =~= orphaned(loaded.specs, loaded.states));
        }
        Engine {
            state,
            heap: TimerHeap::new(),
            runtime: RuntimeState::new(),
            running: StrMap::new(),
            data_dir: data_dir.to_owned(),
            lock_path: crate::paths::join_path(data_dir, "kron.lock"),
        }
    }

    /// Asks for a timer with the default overlap policy; see
    /// [`Engine::schedule_with_overlap`].
    pub fn schedule(
        &self,
        id: &str,
        schedule: Schedule,
        retry: Option<RetryPolicy>,
        timezone: Option<String>,
        now: Timestamp,
    ) -> (r: Result<Option<Event>, KronError>)
        ensures
            match r {
                Ok(event) => !self@.closing() && event.deep_view() == self@.registration_event(
                    self@.requested_spec(
                        id@,
                        schedule@,
                        retry,
                        timezone.deep_view(),
                        None,
                        now@,
                    ),
                ),
                Err(error) => self@.closing() && error@ == KronErrorView::AlreadyStopped,
            },
    {
        self.schedule_with_overlap(id, schedule, retry, timezone, None, now)
    }

    /// Asks for a timer: the event that has to be written before the timer is registered,
    /// if its specification is new or changed. An engine that is closing takes none.
    pub fn schedule_with_overlap(
        &self,
        id: &str,
        schedule: Schedule,
        retry: Option<RetryPolicy>,
        timezone: Option<String>,
        overlap: Option<OverlapPolicy>,
        now: Timestamp,
    ) -> (r: Result<Option<Event>, KronError>)
        ensures
            match r {
                Ok(event) => !self@.closing() && event.deep_view() == self@.registration_event(
                    self@.requested_spec(
                        id@,
                        schedule@,
                        retry,
                        timezone.deep_view(),
                        overlap,
                        now@,
                    ),
                ),
                Err(error) => self@.closing() && error@ == KronErrorView::AlreadyStopped,
            },
    {
        if self.runtime.shutting_down || self.runtime.stopped {
            return Err(KronError::AlreadyStopped);
        }
        let known = self.state.specs.get(id);
        let created_at = match known {
            Some(spec) => spec.created_at,
            None => now,
        };
        let spec = TimerSpec {
            id: TimerId::new(id),
            schedule,
            retry: match retry {
                Some(policy) => policy,
                None => RetryPolicy::default(),
            },
            timezone: match timezone {
                Some(name) => name,
                None => "UTC".to_string(),
            },
            created_at,
            overlap: match overlap {
                Some(policy) => policy,
                None => OverlapPolicy::Delay,
            },
        };
        match known {
            None => Ok(Some(Event::TimerCreated { spec })),
            Some(current) => if same_spec(current, &spec) {
                Ok(None)
            } else {
                Ok(Some(Event::TimerUpdated { spec }))
            },
        }
    }

    /// Registers the function of a timer, once the event that the registration asked for
    /// is written. Whether a sleeping loop has to look again.
    pub fn register(&mut self, id: &TimerId, function: String, event: Option<Event>, now: Timestamp)
        -> (r: bool)
        requires
            old(self)@.registers(id@, event.deep_view()),
            ({
                let next = old(self)@.registered(id@, function@, event.deep_view(), now@);
                next.state.next_runs.dom().contains(id@)
                    || next.state.specs[id@].schedule.can_run_after(
                    now@,
                    next.state.specs[id@].timezone,
                )
            }),
        ensures
            final(self)@ == old(self)@.after_registration(
                id@,
                function@,
                event.deep_view(),
                now@,
            ),
            r == (final(self)@ != old(self)@.registered(id@, function@, event.deep_view(), now@)),
    {
        let ghost before = self@;
        let ghost wanted = before.registered(id@, function@, event.deep_view(), now@);
        let updated = match &event {
            Some(e) => matches!(e, Event::TimerUpdated { .. }),
            None => false,
        };
        match &event {
            Some(e) => {
                self.state.apply(e, now);
            },
            None => {},
        }
        if updated {
            self.heap.remove_timer(id);
            self.state.next_runs.remove(id.as_str());
        }
        self.state.register_function(id.clone(), function);
        assert(self@ =~= wanted);
        if self.state.next_runs.contains(id.as_str()) {
            return false;
        }
        assert(self@.state.specs.dom().contains(id@));
        let spec = match self.state.specs.get(id.as_str()) {
            Some(spec) => spec.clone(),
            None => {
                return false;
            },
        };
        match spec.schedule.next_run_after(now, &spec.timezone) {
            Ok(Some(at)) => {
                self.push_next(id, at);
                assert(self@.state.next_runs.dom().contains(id@));
                true
            },
            _ => false,
        }
    }

    fn push_next(&mut self, id: &TimerId, at: Timestamp)
        ensures
            final(self)@ == old(self)@.with_next(id@, at@),
    {
        self.state.next_runs.insert(id.0.clone(), at);
        self.heap.push(
            ScheduledTimer { timer_id: id.clone(), next_run_at: at, run_id: None, attempt: 1 },
        );
    }

    fn enqueue(&mut self, id: &TimerId, next: Result<Option<Timestamp>, KronError>) -> (r: bool)
        ensures
            final(self)@ == old(self)@.enqueue(id@, crate::schedule::run_view(next)),
            r == old(self)@.wakes(crate::schedule::run_view(next)),
    {
        if self.runtime.shutting_down || self.runtime.stopped {
            return false;
        }
        match next {
            Ok(Some(at)) => {
                self.push_next(id, at);
                true
            },
            _ => {
                self.state.next_runs.remove(id.as_str());
                false
            },
        }
    }

    /// Marks the engine as started.
    pub fn start(&mut self) -> (r: Result<(), KronError>)
        ensures
            ({
                let before = old(self)@.runtime;
                match r {
                    Ok(_) => !before.stopped && !before.started && final(self)@ == (EngineView {
                        runtime: RuntimeState { started: true, ..before },
                        ..old(self)@
                    }),
                    Err(error) => final(self)@ == old(self)@ && if before.stopped {
                        error@ == KronErrorView::AlreadyStopped
                    } else {
                        before.started && error@ == KronErrorView::AlreadyStarted
                    },
                }
            }),
    {
        if self.runtime.stopped {
            return Err(KronError::AlreadyStopped);
        }
        if self.runtime.started {
            return Err(KronError::AlreadyStarted);
        }
        self.runtime.started = true;
        Ok(())
    }

    /// Takes the runs that are due off the heap, in chronological order, and says when
    /// the next one is. `None` once the engine is shutting down: the loop ends.
    pub fn take_due(&mut self, now: Timestamp) -> (r: Option<
        (Vec<ScheduledTimer>, Option<Timestamp>),
    >)
        ensures
            match r {
                None => old(self)@.runtime.shutting_down && final(self)@ == old(self)@,
                Some((due, next_at)) => {
                    &&& !old(self)@.runtime.shutting_down
                    &&& crate::heap::chronological(due.deep_view())
                    &&& due.deep_view().to_multiset() == old(self)@.heap.filter(
                        crate::heap::due_by(now@),
                    )
                    &&& final(self)@ == (EngineView {
                        heap: old(self)@.heap.filter(crate::heap::not_due_by(now@)),
                        ..old(self)@
                    })
                    &&& crate::heap::nearest(final(self)@.heap, next_at.deep_view())
                },
            },
    {
        if self.runtime.shutting_down {
            return None;
        }
        let due = self.heap.pop_due(now);
        let next_at = self.heap.peek_next_at();
        Some((due, next_at))
    }

    /// Counts a run as active, unless the engine is shutting down.
    pub fn begin_run(&mut self) -> (r: bool)
        requires
            old(self)@.runtime.active_runs < usize::MAX,
        ensures
            r == !old(self)@.runtime.shutting_down,
            final(self)@ == (if r {
                EngineView {
                    runtime: RuntimeState {
                        active_runs: (old(self)@.runtime.active_runs + 1) as usize,
                        ..old(self)@.runtime
                    },
                    ..old(self)@
                }
            } else {
                old(self)@
            }),
    {
        if self.runtime.shutting_down {
            return false;
        }
        self.runtime.active_runs = self.runtime.active_runs + 1;
        true
    }

    /// Takes up a run that became due: gives it a name, lets the clock of the timer go on
    /// where its policy says so, and says which events have to be written. Whether a
    /// sleeping loop has to look again is the second part.
    pub fn take_up(&mut self, scheduled: &ScheduledTimer, fresh: RunId, now: Timestamp) -> (r: (
        RunStart,
        bool,
    ))
        requires
            old(self)@.can_take_up(scheduled@, now@),
        ensures
            final(self)@ == old(self)@.taken_up(scheduled@, now@),
            r.0.run_id@ == EngineView::run_name(scheduled@, fresh@),
            r.0.started_at@ == now@,
            r.0.events.deep_view() == old(self)@.start_events(scheduled@, fresh@, now@),
            r.0.skipped == old(self)@.skips(scheduled@.timer_id),
            r.1 == (old(self)@.clock_goes_on(scheduled@) && old(self)@.wakes(
                old(self)@.following(
                    old(self)@.state.specs[scheduled@.timer_id],
                    scheduled@.next_run_at,
                    now@,
                ),
            )),
    {
        let ghost before = self@;
        let timer = scheduled.timer_id.clone();
        let run_id = match &scheduled.run_id {
            Some(id) => id.clone(),
            None => fresh,
        };
        let active: u64 = match self.running.get(timer.as_str()) {
            Some(n) => *n,
            None => 0,
        };
        let spec = match self.state.specs.get(timer.as_str()) {
            Some(spec) => Some(spec.clone()),
            None => None,
        };
        self.state.next_runs.remove(timer.as_str());
        let mut wake = false;
        let mut skipped = false;
        match &spec {
            Some(spec) => {
                if scheduled.run_id.is_none() && spec.overlap != OverlapPolicy::Delay {
                    let next = match spec.schedule.next_run_after(
                        scheduled.next_run_at,
                        &spec.timezone,
                    ) {
                        Ok(Some(at)) => if at.not_after(&now) {
                            spec.schedule.next_run_after(now, &spec.timezone)
                        } else {
                            Ok(Some(at))
                        },
                        other => other,
                    };
                    wake = self.enqueue(&timer, next);
                }
                skipped = spec.overlap == OverlapPolicy::Skip && active > 0;
            },
            None => {},
        }
        let mut events: Vec<Event> = Vec::new();
        if skipped {
            events.push(
                Event::RunSkippedOverlap {
                    timer_id: timer.clone(),
                    run_id: run_id.clone(),
                    scheduled_at: scheduled.next_run_at,
                    skipped_at: now,
                },
            );
        } else {
            self.running.insert(timer.0.clone(), active + 1);
            events.push(
                Event::RunDue {
                    timer_id: timer.clone(),
                    run_id: run_id.clone(),
                    scheduled_at: scheduled.next_run_at,
                },
            );
            events.push(
                Event::RunStarted {
                    timer_id: timer.clone(),
                    run_id: run_id.clone(),
                    started_at: now,
                    attempt: scheduled.attempt,
                },
            );
        }
        proof {
            assert(events.deep_view() =~= before.start_events(scheduled@, run_id@, now@));
            assert(self@ =~= before.taken_up(scheduled@, now@));
        }
        (RunStart { run_id, started_at: now, events, skipped }, wake)
    }

    /// Takes note of an event: applies it if it was written to the log, and stops the
    /// engine if it could not be. Whether it was.
    pub fn record(&mut self, event: &Event, written: bool, now: Timestamp) -> (r: bool)
        requires
            written ==> old(self)@.state.can_apply(event@),
        ensures
            final(self)@ == old(self)@.recorded(event@, written, now@),
            r == written,
    {
        if written {
            self.state.apply(event, now);
        } else {
            self.runtime.shutting_down = true;
            self.runtime.stopped = true;
        }
        written
    }

    /// What is known of the function of a timer.
    pub fn target(&self, timer: &TimerId) -> (r: CallTarget)
        ensures
            r == self@.target(timer@),
    {
        if !self.state.specs.contains(timer.as_str()) {
            CallTarget::Unknown
        } else if !self.state.fn_names.contains(timer.as_str()) {
            CallTarget::Missing
        } else {
            CallTarget::Registered
        }
    }

    /// What a finished run of a timer leads to: the events to write, and what is left to
    /// do once they are written.
    pub fn end_run(
        &self,
        spec: &TimerSpec,
        run_id: &RunId,
        started_at: Timestamp,
        result: CallResult,
        now: Timestamp,
    ) -> (r: RunEnd)
        requires
            result@ is Failed ==> spec@.retry.can_retry(now@, self@.attempt_of(spec@.id) as int),
        ensures
            r.events.deep_view() == self@.end_events(
                spec@,
                run_id@,
                started_at@,
                result@,
                now@,
            ),
            r.follow_up@ == self@.follow_up(spec@, result@, now@),
    {
        let mut events: Vec<Event> = Vec::new();
        let delays = spec.overlap == OverlapPolicy::Delay;
        let follow_up = match &result {
            CallResult::Succeeded => {
                events.push(
                    Event::RunSucceeded {
                        timer_id: spec.id.clone(),
                        run_id: run_id.clone(),
                        finished_at: now,
                        duration_ms: now.millis_since(&started_at),
                    },
                );
                if delays {
                    FollowUp::Reschedule
                } else {
                    FollowUp::Nothing
                }
            },
            CallResult::Failed(error) => {
                let attempt: u32 = match self.state.pending_retries.get(spec.id.as_str()) {
                    Some(retry) => retry.2,
                    None => 1,
                };
                events.push(
                    Event::RunFailed {
                        timer_id: spec.id.clone(),
                        run_id: run_id.clone(),
                        finished_at: now,
                        error: error.clone(),
                        attempt,
                    },
                );
                match spec.retry.next_retry_at(now, attempt) {
                    Some(at) => {
                        events.push(
                            Event::RunRetrying {
                                timer_id: spec.id.clone(),
                                run_id: run_id.clone(),
                                attempt: attempt + 1,
                                next_retry_at: at,
                            },
                        );
                        FollowUp::Retry { at, attempt: attempt + 1 }
                    },
                    None => {
                        events.push(
                            Event::RunDead {
                                timer_id: spec.id.clone(),
                                run_id: run_id.clone(),
                                at: now,
                            },
                        );
                        if delays && !spec.schedule.is_one_shot() {
                            FollowUp::Reschedule
                        } else {
                            FollowUp::Nothing
                        }
                    },
                }
            },
            CallResult::Missing => FollowUp::Orphan,
        };
        proof {
            assert(events.deep_view() =~= self@.end_events(
                spec@,
                run_id@,
                started_at@,
                result@,
                now@,
            ));
        }
        RunEnd { events, follow_up }
    }

    /// Does what a finished run leads to. Whether a sleeping loop has to look again.
    pub fn settle(
        &mut self,
        spec: &TimerSpec,
        run_id: &RunId,
        follow_up: FollowUp,
        now: Timestamp,
    ) -> (r: bool)
        requires
            follow_up@ is Reschedule ==> spec@.schedule.can_run_after(now@, spec@.timezone),
        ensures
            final(self)@ == old(self)@.settled(spec@, run_id@, follow_up@, now@),
            r == match follow_up@ {
                FollowUpView::Reschedule => old(self)@.wakes(
                    spec@.schedule.next(now@, spec@.timezone),
                ),
                FollowUpView::Retry { .. } => !old(self)@.closing(),
                _ => false,
            },
    {
        match follow_up {
            FollowUp::Nothing => false,
            FollowUp::Reschedule => {
                let next = spec.schedule.next_run_after(now, &spec.timezone);
                self.enqueue(&spec.id, next)
            },
            FollowUp::Retry { at, attempt } => {
                if self.runtime.shutting_down || self.runtime.stopped {
                    return false;
                }
                self.heap.push(
                    ScheduledTimer {
                        timer_id: spec.id.clone(),
                        next_run_at: at,
                        run_id: Some(run_id.clone()),
                        attempt,
                    },
                );
                true
            },
            FollowUp::Orphan => {
                self.state.mark_function_missing(&spec.id);
                false
            },
        }
    }

    /// Counts a run as over. `counted` is false for a run that was skipped.
    pub fn finish_run(&mut self, timer: &TimerId, counted: bool)
        ensures
            final(self)@ == old(self)@.finished(timer@, counted),
    {
        if self.runtime.active_runs > 0 {
            self.runtime.active_runs = self.runtime.active_runs - 1;
        }
        if counted {
            let running: u64 = match self.running.get(timer.as_str()) {
                Some(n) => *n,
                None => 0,
            };
            if running == 1 {
                self.running.remove(timer.as_str());
            } else if running > 1 {
                self.running.insert(timer.0.clone(), running - 1);
            }
        }
    }

    /// Asks the engine to stop. One that was never started has stopped with that.
    pub fn shutdown(&mut self) -> (r: ShutdownStep)
        ensures
            ({
                let before = old(self)@.runtime;
                &&& r == (if before.stopped || !before.started {
                    ShutdownStep::Done
                } else {
                    ShutdownStep::Wait
                })
                &&& final(self)@ == (EngineView {
                    runtime: if before.stopped {
                        before
                    } else if !before.started {
                        RuntimeState { stopped: true, ..before }
                    } else {
                        RuntimeState { shutting_down: true, ..before }
                    },
                    ..old(self)@
                })
            }),
    {
        if self.runtime.stopped {
            return ShutdownStep::Done;
        }
        if !self.runtime.started {
            self.runtime.stopped = true;
            return ShutdownStep::Done;
        }
        self.runtime.shutting_down = true;
        ShutdownStep::Wait
    }

    /// Whether no run is active.
    pub fn is_idle(&self) -> (r: bool)
        ensures
            r == (self@.runtime.active_runs == 0),
    {
        self.runtime.active_runs == 0
    }

    /// Ends a shutdown: stopped if it became idle in time, or the error if it did not.
    pub fn end_shutdown(&mut self, idle: bool, timeout_ms: u64) -> (r: Result<(), KronError>)
        ensures
            match r {
                Ok(_) => idle && final(self)@ == (EngineView {
                    runtime: RuntimeState { stopped: true, ..old(self)@.runtime },
                    ..old(self)@
                }),
                Err(error) => !idle && final(self)@ == old(self)@ && error@
                    == (KronErrorView::ShutdownTimeout { timeout_ms }),
            },
    {
        if idle {
            self.runtime.stopped = true;
            Ok(())
        } else {
            Err(KronError::ShutdownTimeout { timeout_ms })
        }
    }

    /// What is shown of a timer.
    pub fn status(&self, id: &str) -> (r: Option<TimerSummary>)
        ensures
            r.deep_view() == self@.state.summary(id@),
    {
        self.state.summary(&TimerId::new(id))
    }

    /// What is shown of the timers, in the order of their names.
    pub fn list(&self) -> (r: Vec<TimerSummary>)
        ensures
            r.deep_view() == self@.state.listed(self.state.specs.order()),
            self.state.specs.ordered(),
    {
        list_state(&self.state)
    }

    /// The data directory.
    pub fn data_dir(&self) -> (r: &str)
        ensures
            r@ == self@.data_dir,
    {
        self.data_dir.as_str()
    }

    /// The file that keeps a second engine out of the data directory.
    pub fn lock_path(&self) -> (r: &str)
        ensures
            r@ == self@.lock_path,
    {
        self.lock_path.as_str()
    }
}

/// What is shown of the timers of a state, in the order of their names.
pub fn list_state(state: &EngineState) -> (r: Vec<TimerSummary>)
    ensures
        r.deep_view() == state@.listed(state.specs.order()),
        state.specs.ordered(),
{
    let n: usize = state.specs.len();
    let ghost order = state.specs.order();
    let mut out: Vec<TimerSummary> = Vec::new();
    let mut i: usize = 0;
    assert(order.take(0) == Seq::<Seq<char>>::empty());
    assert(out.deep_view() =~= state@.listed(order.take(0)));
    while i < n
        invariant
            n == order.len(),
            i <= n,
            order == state.specs.order(),
            out.deep_view() == state@.listed(order.take(i as int)),
        decreases n - i,
    {
        let id = TimerId(state.specs.key_at(i).clone());
        let ghost front = out.deep_view();
        proof {
            assert(order.take(i + 1).drop_last() == order.take(i as int));
            assert(order.take(i + 1).last() == id@);
        }
        match state.summary(&id) {
            Some(summary) => {
                let ghost s = summary@;
                out.push(summary);
                assert(out.deep_view() =~= front.push(s));
            },
            None => {},
        }
        i = i + 1;
    }
    assert(order.take(n as int) == order);
    out
}

/// The reason that a run of a timer without a function fails with.
pub fn missing_function_reason() -> (r: String)
    ensures
        r@ == "function not registered (orphaned)"@,
{
    "function not registered (orphaned)".to_string()
}

/// The reason that a run fails with whose function did not return.
pub fn panic_reason(message: &str) -> (r: String)
    ensures
        r@ == "task panicked: "@ + message@,
{
    concat("task panicked: ", message)
}

/// Everything that a run writes, from becoming due to its end, speaks of the same timer
/// and of the same run.
pub proof fn events_of_a_run_share_its_name(
    at_start: EngineView,
    at_end: EngineView,
    spec: TimerSpecView,
    scheduled: ScheduledView,
    fresh: Seq<char>,
    started_at: TimeView,
    result: CallResultView,
    now: TimeView,
)
    requires
        spec.id == scheduled.timer_id,
    ensures
        ({
            let run_id = EngineView::run_name(scheduled, fresh);
            let events = at_start.start_events(scheduled, fresh, started_at) + at_end.end_events(
                spec,
                run_id,
                started_at,
                result,
                now,
            );
            forall|i: int|
                0 <= i < events.len() ==> (#[trigger] events[i]).timer() == scheduled.timer_id
                    && events[i].run() == Some(run_id)
        }),
{
}

/// A run that is tried again goes by the same name, and as the attempt that follows the
/// one that failed.
pub proof fn retry_keeps_the_name(
    engine: EngineView,
    spec: TimerSpecView,
    run_id: Seq<char>,
    error: Seq<char>,
    fresh: Seq<char>,
    now: TimeView,
)
    requires
        !engine.closing(),
        spec.retry.retry_at(now, engine.attempt_of(spec.id) as int) is Some,
    ensures
        ({
            let at = spec.retry.retry_at(now, engine.attempt_of(spec.id) as int)->0;
            let entry = ScheduledView {
                timer_id: spec.id,
                next_run_at: at,
                run_id: Some(run_id),
                attempt: (engine.attempt_of(spec.id) + 1) as u32,
            };
            let follow_up = engine.follow_up(spec, CallResultView::Failed(error), now);
            &&& engine.settled(spec, run_id, follow_up, now).heap == engine.heap.insert(entry)
            &&& EngineView::run_name(entry, fresh) == run_id
        }),
{
}

/// A run is dead, and not tried again, exactly when its attempts are used up.
pub proof fn run_dies_with_its_last_attempt(
    engine: EngineView,
    spec: TimerSpecView,
    run_id: Seq<char>,
    started_at: TimeView,
    error: Seq<char>,
    now: TimeView,
)
    ensures
        ({
            let events = engine.end_events(
                spec,
                run_id,
                started_at,
                CallResultView::Failed(error),
                now,
            );
            &&& events.len() == 2
            &&& events[0] is RunFailed
            &&& events[1] is RunDead <==> engine.attempt_of(spec.id) >= spec.retry.max_attempts
            &&& events[1] is RunRetrying <==> engine.attempt_of(spec.id) < spec.retry.max_attempts
        }),
{
}

/// An event that could not be written changes nothing but that the engine stops.
pub proof fn failed_write_stops_the_engine(engine: EngineView, event: EventView, now: TimeView)
    ensures
        engine.recorded(event, false, now).closing(),
        engine.recorded(event, false, now).state == engine.state,
        engine.recorded(event, false, now).heap == engine.heap,
{
}

/// An engine that is closing puts no run on its heap any more.
pub proof fn closing_engine_adds_no_run(
    engine: EngineView,
    spec: TimerSpecView,
    scheduled: ScheduledView,
    run_id: Seq<char>,
    follow_up: FollowUpView,
    now: TimeView,
)
    requires
        engine.closing(),
    ensures
        engine.taken_up(scheduled, now).heap == engine.heap,
        engine.settled(spec, run_id, follow_up, now).heap == engine.heap,
{
}

/// While a run of a timer with the policy to skip is active, no other run of it starts:
/// one that becomes due writes that it was skipped and is not counted as running.
pub proof fn skip_never_overlaps(
    engine: EngineView,
    scheduled: ScheduledView,
    fresh: Seq<char>,
    now: TimeView,
)
    requires
        engine.overlap_of(scheduled.timer_id) == OverlapPolicy::Skip,
        engine.running_of(scheduled.timer_id) > 0,
    ensures
        engine.start_events(scheduled, fresh, now).len() == 1,
        engine.start_events(scheduled, fresh, now)[0] is RunSkippedOverlap,
        engine.taken_up(scheduled, now).running == engine.running,
{
}

/// A timer whose policy allows runs to overlap starts every run that becomes due.
pub proof fn allow_always_starts(
    engine: EngineView,
    scheduled: ScheduledView,
    fresh: Seq<char>,
    now: TimeView,
)
    requires
        engine.overlap_of(scheduled.timer_id) == OverlapPolicy::Allow,
        engine.running_of(scheduled.timer_id) < u64::MAX,
    ensures
        engine.start_events(scheduled, fresh, now).len() == 2,
        engine.start_events(scheduled, fresh, now)[1] is RunStarted,
        engine.taken_up(scheduled, now).running_of(scheduled.timer_id) == engine.running_of(
            scheduled.timer_id,
        ) + 1,
{
}

/// With the policies that go on by the clock the next run waits already while a run is
/// active; with the policy to delay it is put on the heap only when the run is over.
pub proof fn clock_goes_on_or_waits(
    engine: EngineView,
    scheduled: ScheduledView,
    at: TimeView,
    now: TimeView,
)
    requires
        !engine.closing(),
        engine.state.specs.dom().contains(scheduled.timer_id),
        scheduled.run_id is None,
    ensures
        ({
            let spec = engine.state.specs[scheduled.timer_id];
            let next = engine.taken_up(scheduled, now);
            if spec.overlap == OverlapPolicy::Delay {
                &&& next.heap == engine.heap
                &&& engine.follow_up(spec, CallResultView::Succeeded, now)
                    == FollowUpView::Reschedule
            } else {
                &&& engine.following(spec, scheduled.next_run_at, now) == Ok::<_, KronErrorView>(
                    Some(at),
                ) ==> next.state.next_runs.dom().contains(scheduled.timer_id)
                    && next.state.next_runs[scheduled.timer_id] == at
                &&& engine.follow_up(spec, CallResultView::Succeeded, now)
                    == FollowUpView::Nothing
            }
        }),
{
}

/// A run that starts and is over leaves the count of active runs of its timer as it was.
pub proof fn finishing_undoes_the_count(engine: EngineView, scheduled: ScheduledView, now: TimeView)
    requires
        !engine.skips(scheduled.timer_id),
        engine.running_of(scheduled.timer_id) < u64::MAX,
        engine.running.dom().contains(scheduled.timer_id) ==> engine.running_of(scheduled.timer_id)
            > 0,
    ensures
        engine.taken_up(scheduled, now).finished(scheduled.timer_id, true).running
            == engine.running,
{
    assert(engine.taken_up(scheduled, now).finished(scheduled.timer_id, true).running
        =~= engine.running);
}

/// After a restart every timer is there, orphaned and without a function, until its
/// function is registered; then it is scheduled.
pub proof fn restart_orphans_until_registered(state: StateView, id: Seq<char>, function: Seq<char>)
    requires
        state.specs.dom().contains(id),
    ensures
        ({
            let reopened = state.reopened();
            let registered = reopened.register(id, function);
            &&& reopened.specs == state.specs
            &&& reopened.last_runs == state.last_runs
            &&& reopened.summary(id) is Some
            &&& reopened.summary(id)->0.state == TimerState::Orphaned
            &&& reopened.summary(id)->0.next_run_at is None
            &&& registered.summary(id)->0.state == TimerState::Scheduled
            &&& registered.summary(id)->0.fn_name == Some(function)
        }),
{
}

/// Registering a timer a second time with the same wishes writes nothing.
pub proof fn registering_again_writes_nothing(
    engine: EngineView,
    id: Seq<char>,
    schedule: crate::schedule::ScheduleView,
    retry: Option<RetryPolicy>,
    timezone: Option<Seq<char>>,
    overlap: Option<OverlapPolicy>,
    function: Seq<char>,
    now: TimeView,
    later: TimeView,
)
    ensures
        ({
            let spec = engine.requested_spec(id, schedule, retry, timezone, overlap, now);
            let after = engine.after_registration(
                id,
                function,
                engine.registration_event(spec),
                now,
            );
            after.registration_event(
                after.requested_spec(id, schedule, retry, timezone, overlap, later),
            ) is None
        }),
{
}

impl StateView {
    /// The part of a state that only the log changes.
    pub open spec fn durable(self) -> StateView {
        StateView {
            states: Map::empty(),
            fn_names: Map::empty(),
            next_runs: Map::empty(),
            ..self
        }
    }
}

/// What an engine knows for good is what a replay of its log gives: it holds after a
/// restart, every event that is written keeps it, and so does every step between two
/// events.
pub proof fn durable_state_follows_the_log(
    engine: EngineView,
    log: Seq<crate::event::LogEntryView>,
    entry: crate::event::LogEntryView,
    spec: TimerSpecView,
    scheduled: ScheduledView,
    run_id: Seq<char>,
    function: Seq<char>,
    follow_up: FollowUpView,
    now: TimeView,
)
    requires
        engine.state.durable() == StateView::empty().replay(log).durable(),
    ensures
        StateView::empty().replay(log).reopened().durable() == engine.state.durable(),
        engine.recorded(entry.event, true, entry.ts).state.durable() == StateView::empty().replay(
            log.push(entry),
        ).durable(),
        engine.recorded(entry.event, false, now).state.durable() == engine.state.durable(),
        engine.registered(spec.id, function, None, now).state.durable() == engine.state.durable(),
        engine.taken_up(scheduled, now).state.durable() == engine.state.durable(),
        engine.settled(spec, run_id, follow_up, now).state.durable() == engine.state.durable(),
        engine.finished(spec.id, true).state.durable() == engine.state.durable(),
{
    let replayed = StateView::empty().replay(log);
    assert(log.push(entry).drop_last() == log);
    assert(engine.state.specs == engine.state.durable().specs);
    assert(replayed.specs == replayed.durable().specs);
    assert(engine.state.last_runs == engine.state.durable().last_runs);
    assert(replayed.last_runs == replayed.durable().last_runs);
    assert(engine.state.retries_7d == engine.state.durable().retries_7d);
    assert(replayed.retries_7d == replayed.durable().retries_7d);
    assert(engine.state.retry_times == engine.state.durable().retry_times);
    assert(replayed.retry_times == replayed.durable().retry_times);
    assert(engine.state.pending_retries == engine.state.durable().pending_retries);
    assert(replayed.pending_retries == replayed.durable().pending_retries);
}

} // verus!
