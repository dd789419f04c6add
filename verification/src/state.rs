//! The state of an engine, derived from its events.

use vstd::prelude::*;

use crate::event::{Event, EventView, LogEntry, LogEntryView};
use crate::strmap::{Duplicate, StrMap};
use crate::text::concat;
use crate::timer::{RunId, TimerId, TimerSpec, TimerSpecView, TimerState, TimerSummary, TimerSummaryView};
use crate::timestamp::{TimeView, Timestamp, NANOS_PER_SEC};

verus! {

/// The seconds for which a retry is counted: seven days.
pub const RETRY_WINDOW_SECS: u32 = 604_800;

/// The outcome of the latest run of a timer.
#[derive(Debug)]
pub struct LastRunInfo {
    pub run_id: RunId,
    pub finished_at: Timestamp,
    pub duration_ms: Option<u64>,
    pub status: String,
}

/// A [`LastRunInfo`] as a mathematical value.
pub struct LastRunView {
    pub run_id: Seq<char>,
    pub finished_at: TimeView,
    pub duration_ms: Option<u64>,
    pub status: Seq<char>,
}

impl View for LastRunInfo {
    type V = LastRunView;

    open spec fn view(&self) -> LastRunView {
        LastRunView {
            run_id: self.run_id@,
            finished_at: self.finished_at@,
            duration_ms: self.duration_ms,
            status: self.status@,
        }
    }
}

impl Clone for LastRunInfo {
    fn clone(&self) -> (r: Self)
        ensures
            r@ == self@,
    {
        LastRunInfo {
            run_id: self.run_id.clone(),
            finished_at: self.finished_at,
            duration_ms: self.duration_ms,
            status: self.status.clone(),
        }
    }
}

impl Duplicate for LastRunInfo {
    fn duplicate(&self) -> (r: Self) {
        self.clone()
    }
}

/// All that an engine knows. It can be rebuilt from the log.
pub struct EngineState {
    /// What each timer is meant to do.
    pub specs: StrMap<TimerSpec>,
    /// What each timer is doing.
    pub states: StrMap<TimerState>,
    /// The names of the functions that were registered since the start.
    pub fn_names: StrMap<String>,
    /// The latest run of each timer.
    pub last_runs: StrMap<LastRunInfo>,
    /// When each timer fires next.
    pub next_runs: StrMap<Timestamp>,
    /// How many retries each timer had, as far as they were not let go.
    pub retries_7d: StrMap<u32>,
    /// When the retries of each timer were made, as far as they were not let go.
    pub retry_times: StrMap<RetryTimes>,
    /// The run of each timer that waits to be tried again: its name, when, and as which
    /// attempt.
    pub pending_retries: StrMap<(RunId, Timestamp, u32)>,
}

/// An [`EngineState`] as a mathematical value.
#[verifier::ext_equal]
pub struct StateView {
    pub specs: Map<Seq<char>, TimerSpecView>,
    pub states: Map<Seq<char>, TimerState>,
    pub fn_names: Map<Seq<char>, Seq<char>>,
    pub last_runs: Map<Seq<char>, LastRunView>,
    pub next_runs: Map<Seq<char>, TimeView>,
    pub retries_7d: Map<Seq<char>, u32>,
    pub retry_times: Map<Seq<char>, Seq<TimeView>>,
    pub pending_retries: Map<Seq<char>, (Seq<char>, TimeView, u32)>,
}

impl View for EngineState {
    type V = StateView;

    open spec fn view(&self) -> StateView {
        StateView {
            specs: self.specs@,
            states: self.states@,
            fn_names: self.fn_names@,
            last_runs: self.last_runs@,
            next_runs: self.next_runs@,
            retries_7d: self.retries_7d@,
            retry_times: self.retry_times@,
            pending_retries: self.pending_retries@,
        }
    }
}

/// The value of a key, or another value for a key without one.
pub open spec fn lookup<V>(m: Map<Seq<char>, V>, key: Seq<char>, other: V) -> V {
    if m.dom().contains(key) {
        m[key]
    } else {
        other
    }
}

/// The value of a key, if it has one.
pub open spec fn found<V>(m: Map<Seq<char>, V>, key: Seq<char>) -> Option<V> {
    if m.dom().contains(key) {
        Some(m[key])
    } else {
        None
    }
}

/// The retries that are not older than seven days.
pub open spec fn recent(now: TimeView) -> spec_fn(TimeView) -> bool {
    |at: TimeView| now.nanos_since(at) <= RETRY_WINDOW_SECS * crate::timestamp::NANOS_PER_SEC
}

/// The times of the retries of a timer, oldest first.
pub struct RetryTimes {
    times: Vec<Timestamp>,
}

impl View for RetryTimes {
    type V = Seq<TimeView>;

    closed spec fn view(&self) -> Seq<TimeView> {
        self.times.deep_view()
    }
}

impl RetryTimes {
    #[verifier::type_invariant]
    spec fn countable(self) -> bool {
        self.times@.len() <= u32::MAX
    }

    /// No retries.
    pub fn new() -> (r: Self)
        ensures
            r@ == Seq::<TimeView>::empty(),
    {
        let r = RetryTimes { times: Vec::new() };
        assert(r@ =~= Seq::<TimeView>::empty());
        r
    }

    /// Retries at the given times, unless they are more than can be counted.
    pub fn at(times: Vec<Timestamp>) -> (r: Option<Self>)
        ensures
            match r {
                Some(retries) => retries@ == times.deep_view(),
                None => times@.len() > u32::MAX,
            },
    {
        if times.len() as u64 > u32::MAX as u64 {
            None
        } else {
            Some(RetryTimes { times })
        }
    }

    /// The times.
    pub fn times(&self) -> (r: &Vec<Timestamp>)
        ensures
            r.deep_view() == self@,
    {
        &self.times
    }

    /// The number of retries.
    pub fn count(&self) -> (r: u32)
        ensures
            r == self@.len(),
    {
        proof {
            use_type_invariant(self);
        }
        self.times.len() as u32
    }

    /// Notes another retry.
    pub fn note(&mut self, at: Timestamp)
        requires
            old(self)@.len() < u32::MAX,
        ensures
            final(self)@ == old(self)@.push(at@),
    {
        let ghost before = self@;
        let mut times: Vec<Timestamp> = Vec::new();
        core::mem::swap(&mut times, &mut self.times);
        times.push(at);
        self.times = times;
        assert(self@ =~= before.push(at@));
    }

    /// The retries that are not older than seven days.
    pub fn since(&self, now: Timestamp) -> (r: Self)
        ensures
            r@ == self@.filter(recent(now@)),
    {
        proof {
            use_type_invariant(self);
        }
        let ghost all = self@;
        let mut times: Vec<Timestamp> = Vec::new();
        let mut i: usize = 0;
        proof {
            reveal(Seq::filter);
            assert(all.take(0) =~= Seq::empty());
            assert(times.deep_view() =~= all.take(0).filter(recent(now@)));
        }
        while i < self.times.len()
            invariant
                i <= self.times@.len() <= u32::MAX,
                times@.len() <= i,
                all == self.times.deep_view(),
                times.deep_view() == all.take(i as int).filter(recent(now@)),
            decreases self.times@.len() - i,
        {
            let at = self.times[i];
            let ghost front = times.deep_view();
            proof {
                reveal(Seq::filter);
                assert(all.take(i + 1).drop_last() =~= all.take(i as int));
                assert(all.take(i + 1).last() == at@);
            }
            if now.nanos_since(&at) <= RETRY_WINDOW_SECS as i128 * NANOS_PER_SEC as i128 {
                times.push(at);
                assert(times.deep_view() =~= front.push(at@));
            }
            i = i + 1;
        }
        assert(all.take(all.len() as int) =~= all);
        RetryTimes { times }
    }
}

impl Duplicate for RetryTimes {
    fn duplicate(&self) -> (r: Self) {
        proof {
            use_type_invariant(self);
        }
        let mut times: Vec<Timestamp> = Vec::new();
        let mut i: usize = 0;
        while i < self.times.len()
            invariant
                i <= self.times@.len() <= u32::MAX,
                times@.len() == i,
                forall|k: int| 0 <= k < i ==> times@[k]@ == (#[trigger] self.times@[k])@,
            decreases self.times@.len() - i,
        {
            times.push(self.times[i]);
            i = i + 1;
        }
        let r = RetryTimes { times };
        assert(r@ =~= self@);
        r
    }
}

impl StateView {
    /// The state before any event.
    pub open spec fn empty() -> StateView {
        StateView {
            specs: Map::empty(),
            states: Map::empty(),
            fn_names: Map::empty(),
            last_runs: Map::empty(),
            next_runs: Map::empty(),
            retries_7d: Map::empty(),
            retry_times: Map::empty(),
            pending_retries: Map::empty(),
        }
    }

    /// The state with a timer in the given lifecycle state.
    pub open spec fn with_state(self, timer: Seq<char>, state: TimerState) -> StateView {
        StateView { states: self.states.insert(timer, state), ..self }
    }

    /// The state with the given latest run of a timer.
    pub open spec fn with_last_run(
        self,
        timer: Seq<char>,
        run_id: Seq<char>,
        finished_at: TimeView,
        duration_ms: Option<u64>,
        status: Seq<char>,
    ) -> StateView {
        StateView {
            last_runs: self.last_runs.insert(
                timer,
                LastRunView { run_id, finished_at, duration_ms, status },
            ),
            ..self
        }
    }

    /// The state without a run of the timer that waits to be tried again.
    pub open spec fn without_retry(self, timer: Seq<char>) -> StateView {
        StateView { pending_retries: self.pending_retries.remove(timer), ..self }
    }

    /// Whether the retry that the event counts, if it does, can be counted.
    pub open spec fn can_apply(self, event: EventView) -> bool {
        event is RunRetrying ==> {
            &&& lookup(self.retries_7d, event.timer(), 0u32) < u32::MAX
            &&& lookup(self.retry_times, event.timer(), Seq::empty()).len() < u32::MAX
        }
    }

    /// The state without the retries that are older than seven days.
    pub open spec fn pruned(self, now: TimeView) -> StateView {
        StateView {
            retry_times: self.retry_times.map_values(
                |times: Seq<TimeView>| times.filter(recent(now)),
            ),
            retries_7d: Map::new(
                |timer: Seq<char>| self.retries_7d.dom().contains(timer),
                |timer: Seq<char>|
                    lookup(self.retry_times, timer, Seq::empty()).filter(
                        recent(now),
                    ).len() as u32,
            ),
            ..self
        }
    }

    /// What an event that was logged at an instant makes of the state.
    pub open spec fn apply(self, event: EventView, ts: TimeView) -> StateView {
        match event {
            EventView::TimerCreated { spec } => StateView {
                specs: self.specs.insert(spec.id, spec),
                ..self.with_state(spec.id, TimerState::Orphaned)
            },
            EventView::TimerUpdated { spec } => StateView {
                specs: self.specs.insert(spec.id, spec),
                ..self
            },
            EventView::TimerPaused { timer_id, .. } => self.with_state(
                timer_id,
                TimerState::Paused,
            ),
            EventView::TimerResumed { timer_id, .. } => self.with_state(
                timer_id,
                if self.fn_names.dom().contains(timer_id) {
                    TimerState::Scheduled
                } else {
                    TimerState::Orphaned
                },
            ),
            EventView::TimerCancelled { timer_id, .. } => self.with_state(
                timer_id,
                TimerState::Cancelled,
            ),
            EventView::RunDue { timer_id, .. } => self.with_state(timer_id, TimerState::Running),
            EventView::RunStarted { timer_id, .. } => self.with_state(
                timer_id,
                TimerState::Running,
            ),
            EventView::RunSkippedOverlap { timer_id, run_id, skipped_at, .. } => self.with_last_run(
                timer_id,
                run_id,
                skipped_at,
                None,
                "SKIPPED_OVERLAP"@,
            ),
            EventView::RunSucceeded { timer_id, run_id, finished_at, duration_ms } =>
            self.with_state(timer_id, TimerState::Scheduled).with_last_run(
                timer_id,
                run_id,
                finished_at,
                Some(duration_ms),
                "OK"@,
            ).without_retry(timer_id),
            EventView::RunFailed { timer_id, run_id, finished_at, error, .. } => self.with_last_run(
                timer_id,
                run_id,
                finished_at,
                None,
                "FAILED: "@ + error,
            ),
            EventView::RunRetrying { timer_id, run_id, attempt, next_retry_at } => StateView {
                pending_retries: self.pending_retries.insert(
                    timer_id,
                    (run_id, next_retry_at, attempt),
                ),
                retries_7d: self.retries_7d.insert(
                    timer_id,
                    (lookup(self.retries_7d, timer_id, 0u32) + 1) as u32,
                ),
                retry_times: self.retry_times.insert(
                    timer_id,
                    lookup(self.retry_times, timer_id, Seq::empty()).push(ts),
                ),
                ..self.with_state(timer_id, TimerState::Retrying)
            },
            EventView::RunDead { timer_id, run_id, at } => self.with_state(
                timer_id,
                TimerState::Dead,
            ).with_last_run(timer_id, run_id, at, None, "DEAD"@).without_retry(timer_id),
        }
    }

    /// What a log makes of the state: its events, applied one after the other.
    pub open spec fn replay(self, entries: Seq<LogEntryView>) -> StateView
        decreases entries.len(),
    {
        if entries.len() == 0 {
            self
        } else {
            self.replay(entries.drop_last()).apply(entries.last().event, entries.last().ts)
        }
    }

    /// Whether every retry of the log can be counted.
    pub open spec fn can_replay(self, entries: Seq<LogEntryView>) -> bool
        decreases entries.len(),
    {
        entries.len() > 0 ==> {
            &&& self.can_replay(entries.drop_last())
            &&& self.replay(entries.drop_last()).can_apply(entries.last().event)
        }
    }

    /// What is shown of a timer, if it has a lifecycle state.
    pub open spec fn summary(self, id: Seq<char>) -> Option<TimerSummaryView> {
        if self.states.dom().contains(id) {
            let last = found(self.last_runs, id);
            Some(
                TimerSummaryView {
                    id,
                    state: self.states[id],
                    fn_name: found(self.fn_names, id),
                    last_run_at: match last {
                        Some(run) => Some(run.finished_at),
                        None => None,
                    },
                    last_duration_ms: match last {
                        Some(run) => run.duration_ms,
                        None => None,
                    },
                    last_status: match last {
                        Some(run) => Some(run.status),
                        None => None,
                    },
                    next_run_at: found(self.next_runs, id),
                    retries_last_7d: lookup(self.retries_7d, id, 0u32),
                },
            )
        } else {
            None
        }
    }

    /// The state with a function registered for a timer, which ends its being orphaned.
    pub open spec fn register(self, timer: Seq<char>, function: Seq<char>) -> StateView {
        let named = StateView { fn_names: self.fn_names.insert(timer, function), ..self };
        if lookup(self.states, timer, TimerState::Orphaned) == TimerState::Orphaned {
            named.with_state(timer, TimerState::Scheduled)
        } else {
            named
        }
    }

    /// The state without a function for a timer, which orphans it if it was active.
    pub open spec fn unregister(self, timer: Seq<char>) -> StateView {
        let unnamed = StateView { fn_names: self.fn_names.remove(timer), ..self };
        let current = lookup(self.states, timer, TimerState::Orphaned);
        if current == TimerState::Scheduled || current == TimerState::Retrying || current
            == TimerState::Running {
            unnamed.with_state(timer, TimerState::Orphaned)
        } else {
            unnamed
        }
    }
}

impl Default for EngineState {
    fn default() -> (r: Self)
        ensures
            r@ == StateView::empty(),
    {
        EngineState::new()
    }
}

impl EngineState {
    /// The state before any event.
    pub fn new() -> (r: Self)
        ensures
            r@ == StateView::empty(),
    {
        EngineState {
            specs: StrMap::new(),
            states: StrMap::new(),
            fn_names: StrMap::new(),
            last_runs: StrMap::new(),
            next_runs: StrMap::new(),
            retries_7d: StrMap::new(),
            retry_times: StrMap::new(),
            pending_retries: StrMap::new(),
        }
    }

    /// Applies the events of a log, in order.
    pub fn replay(&mut self, entries: &Vec<LogEntry>)
        requires
            old(self)@.can_replay(entries.deep_view()),
        ensures
            final(self)@ == old(self)@.replay(entries.deep_view()),
    {
        let ghost log = entries.deep_view();
        let ghost start = self@;
        let mut i: usize = 0;
        assert(log.take(0) == Seq::<LogEntryView>::empty());
        proof {
            can_replay_prefixes(start, log);
        }
        while i < entries.len()
            invariant
                i <= entries@.len(),
                log == entries.deep_view(),
                self@ == start.replay(log.take(i as int)),
                forall|k: int| 0 <= k <= log.len() ==> #[trigger] start.can_replay(log.take(k)),
            decreases entries@.len() - i,
        {
            proof {
                assert(start.can_replay(log.take(i + 1)));
                assert(log.take(i + 1).drop_last() == log.take(i as int));
            }
            self.apply(&entries[i].event, entries[i].ts);
            i = i + 1;
        }
        assert(log.take(log.len() as int) == log);
    }

    /// Whether every retry that the log counts can be counted.
    pub fn replay_fits(&self, entries: &Vec<LogEntry>) -> (r: bool)
        ensures
            r == self@.can_replay(entries.deep_view()),
    {
        let ghost log = entries.deep_view();
        let mut state = self.duplicate();
        let mut i: usize = 0;
        assert(log.take(0) == Seq::<LogEntryView>::empty());
        while i < entries.len()
            invariant
                i <= entries@.len(),
                log == entries.deep_view(),
                state@ == self@.replay(log.take(i as int)),
                self@.can_replay(log.take(i as int)),
            decreases entries@.len() - i,
        {
            proof {
                assert(log.take(i + 1).drop_last() == log.take(i as int));
            }
            if !state.apply_fits(&entries[i].event) {
                proof {
                    if self@.can_replay(log) {
                        can_replay_prefixes(self@, log);
                        assert(self@.can_replay(log.take(i + 1)));
                    }
                }
                return false;
            }
            state.apply(&entries[i].event, entries[i].ts);
            i = i + 1;
        }
        assert(log.take(log.len() as int) == log);
        true
    }

    /// Whether the retry that the event counts, if it does, can be counted.
    pub fn apply_fits(&self, event: &Event) -> (r: bool)
        ensures
            r == self@.can_apply(event@),
    {
        match event {
            Event::RunRetrying { timer_id, .. } => {
                let counted = match self.retries_7d.get(timer_id.as_str()) {
                    Some(n) => *n < u32::MAX,
                    None => true,
                };
                let noted = match self.retry_times.get(timer_id.as_str()) {
                    Some(times) => times.count() < u32::MAX,
                    None => true,
                };
                counted && noted
            },
            _ => true,
        }
    }

    /// Applies one event that was logged at an instant.
    pub fn apply(&mut self, event: &Event, ts: Timestamp)
        requires
            old(self)@.can_apply(event@),
        ensures
            final(self)@ == old(self)@.apply(event@, ts@),
    {
        match event {
            Event::TimerCreated { spec } => {
                self.states.insert(spec.id.0.clone(), TimerState::Orphaned);
                self.specs.insert(spec.id.0.clone(), spec.clone());
            },
            Event::TimerUpdated { spec } => {
                self.specs.insert(spec.id.0.clone(), spec.clone());
            },
            Event::TimerPaused { timer_id, .. } => {
                self.states.insert(timer_id.0.clone(), TimerState::Paused);
            },
            Event::TimerResumed { timer_id, .. } => {
                let next_state = if self.fn_names.contains(timer_id.as_str()) {
                    TimerState::Scheduled
                } else {
                    TimerState::Orphaned
                };
                self.states.insert(timer_id.0.clone(), next_state);
            },
            Event::TimerCancelled { timer_id, .. } => {
                self.states.insert(timer_id.0.clone(), TimerState::Cancelled);
            },
            Event::RunDue { timer_id, .. } => {
                self.states.insert(timer_id.0.clone(), TimerState::Running);
            },
            Event::RunStarted { timer_id, .. } => {
                self.states.insert(timer_id.0.clone(), TimerState::Running);
            },
            Event::RunSkippedOverlap { timer_id, run_id, skipped_at, .. } => {
                self.set_last_run(
                    timer_id,
                    run_id,
                    *skipped_at,
                    None,
                    "SKIPPED_OVERLAP".to_string(),
                );
            },
            Event::RunSucceeded { timer_id, run_id, finished_at, duration_ms } => {
                self.states.insert(timer_id.0.clone(), TimerState::Scheduled);
                self.set_last_run(
                    timer_id,
                    run_id,
                    *finished_at,
                    Some(*duration_ms),
                    "OK".to_string(),
                );
                self.pending_retries.remove(timer_id.as_str());
            },
            Event::RunFailed { timer_id, run_id, finished_at, error, .. } => {
                self.set_last_run(timer_id, run_id, *finished_at, None, concat("FAILED: ", error));
            },
            Event::RunRetrying { timer_id, run_id, attempt, next_retry_at } => {
                let count: u32 = match self.retries_7d.get(timer_id.as_str()) {
                    Some(n) => *n,
                    None => 0,
                };
                self.states.insert(timer_id.0.clone(), TimerState::Retrying);
                self.pending_retries.insert(
                    timer_id.0.clone(),
                    (run_id.clone(), *next_retry_at, *attempt),
                );
                self.retries_7d.insert(timer_id.0.clone(), count + 1);
                let mut times = match self.retry_times.remove(timer_id.as_str()) {
                    Some(times) => times,
                    None => RetryTimes::new(),
                };
                times.note(ts);
                self.retry_times.insert(timer_id.0.clone(), times);
                assert(self@ =~= old(self)@.apply(event@, ts@));
            },
            Event::RunDead { timer_id, run_id, at } => {
                self.states.insert(timer_id.0.clone(), TimerState::Dead);
                self.set_last_run(timer_id, run_id, *at, None, "DEAD".to_string());
                self.pending_retries.remove(timer_id.as_str());
            },
        }
    }

    fn set_last_run(
        &mut self,
        timer_id: &TimerId,
        run_id: &RunId,
        finished_at: Timestamp,
        duration_ms: Option<u64>,
        status: String,
    )
        ensures
            final(self)@ == old(self)@.with_last_run(
                timer_id@,
                run_id@,
                finished_at@,
                duration_ms,
                status@,
            ),
    {
        let run = LastRunInfo { run_id: run_id.clone(), finished_at, duration_ms, status };
        self.last_runs.insert(timer_id.0.clone(), run);
    }

    /// What is shown of a timer, if it has a lifecycle state.
    pub fn summary(&self, id: &TimerId) -> (r: Option<TimerSummary>)
        ensures
            r.deep_view() == self@.summary(id@),
    {
        let state = match self.states.get(id.as_str()) {
            Some(state) => *state,
            None => {
                return None;
            },
        };
        let fn_name = match self.fn_names.get(id.as_str()) {
            Some(name) => Some(name.clone()),
            None => None,
        };
        let next_run_at = match self.next_runs.get(id.as_str()) {
            Some(at) => Some(*at),
            None => None,
        };
        let retries_last_7d: u32 = match self.retries_7d.get(id.as_str()) {
            Some(n) => *n,
            None => 0,
        };
        let (last_run_at, last_duration_ms, last_status) = match self.last_runs.get(id.as_str()) {
            Some(run) => (Some(run.finished_at), run.duration_ms, Some(run.status.clone())),
            None => (None, None, None),
        };
        Some(
            TimerSummary {
                id: id.clone(),
                state,
                fn_name,
                last_run_at,
                last_duration_ms,
                last_status,
                next_run_at,
                retries_last_7d,
            },
        )
    }

    /// Registers the function of a timer. A timer that was orphaned is scheduled then.
    pub fn register_function(&mut self, timer_id: TimerId, function_name: String)
        ensures
            final(self)@ == old(self)@.register(timer_id@, function_name@),
    {
        let orphaned = match self.states.get(timer_id.as_str()) {
            Some(state) => matches!(state, TimerState::Orphaned),
            None => true,
        };
        self.fn_names.insert(timer_id.0.clone(), function_name);
        if orphaned {
            self.states.insert(timer_id.0, TimerState::Scheduled);
        }
    }

    /// Forgets the function of a timer. A timer that was active is orphaned then.
    pub fn mark_function_missing(&mut self, timer_id: &TimerId)
        ensures
            final(self)@ == old(self)@.unregister(timer_id@),
    {
        let active = match self.states.get(timer_id.as_str()) {
            Some(state) => matches!(
                state,
                TimerState::Scheduled | TimerState::Retrying | TimerState::Running
            ),
            None => false,
        };
        self.fn_names.remove(timer_id.as_str());
        if active {
            self.states.insert(timer_id.0.clone(), TimerState::Orphaned);
        }
    }

    /// Lets go of retries that are older than seven days: exactly the later ones stay, and
    /// the counters count them.
    pub fn prune_old_retries(&mut self, now: Timestamp)
        ensures
            final(self)@ == old(self)@.pruned(now@),
    {
        let ghost before = self@;
        let mut times: StrMap<RetryTimes> = StrMap::new();
        let mut counts: StrMap<u32> = StrMap::new();
        let n: usize = self.retry_times.len();
        let ghost order = self.retry_times.order();
        let mut i: usize = 0;
        while i < n
            invariant
                i <= n == order.len(),
                order == self.retry_times.order(),
                self@ == before,
                forall|k: Seq<char>| #[trigger]
                    times@.dom().contains(k) <==> order.take(i as int).contains(k),
                forall|k: Seq<char>| #[trigger]
                    times@.dom().contains(k) ==> times@[k] == before.retry_times[k].filter(
                        recent(now@),
                    ),
            decreases n - i,
        {
            let kept = self.retry_times.value_at(i).since(now);
            proof {
                taken_one_more(order, i as int);
            }
            times.insert(self.retry_times.key_at(i).clone(), kept);
            i = i + 1;
        }
        assert(order.take(n as int) =~= order);
        let m: usize = self.retries_7d.len();
        let ghost counted = self.retries_7d.order();
        let mut j: usize = 0;
        while j < m
            invariant
                j <= m == counted.len(),
                counted == self.retries_7d.order(),
                self.retries_7d.ordered(),
                self@ == before,
                forall|k: Seq<char>| #[trigger]
                    times@.dom().contains(k) <==> before.retry_times.dom().contains(k),
                forall|k: Seq<char>| #[trigger]
                    times@.dom().contains(k) ==> times@[k] == before.retry_times[k].filter(
                        recent(now@),
                    ),
                forall|k: Seq<char>| #[trigger]
                    counts@.dom().contains(k) <==> counted.take(j as int).contains(k),
                forall|k: Seq<char>| #[trigger]
                    counts@.dom().contains(k) ==> counts@[k] == before.pruned(now@).retries_7d[k],
            decreases m - j,
        {
            let timer = self.retries_7d.key_at(j);
            let count: u32 = match times.get(timer) {
                Some(kept) => kept.count(),
                None => {
                    assert(Seq::<TimeView>::empty().filter(recent(now@)) =~= Seq::empty()) by {
                        reveal(Seq::filter);
                    }
                    0
                },
            };
            proof {
                taken_one_more(counted, j as int);
                assert(counted.contains(timer@));
            }
            counts.insert(timer.clone(), count);
            j = j + 1;
        }
        assert(counted.take(m as int) =~= counted);
        self.retry_times = times;
        self.retries_7d = counts;
        assert(self@.retry_times =~= before.pruned(now@).retry_times);
        assert(self@.retries_7d =~= before.pruned(now@).retries_7d);
    }
}

proof fn taken_one_more(order: Seq<Seq<char>>, i: int)
    requires
        0 <= i < order.len(),
    ensures
        forall|k: Seq<char>| #[trigger]
            order.take(i + 1).contains(k) <==> order.take(i).contains(k) || k == order[i],
{
    let (shorter, longer) = (order.take(i), order.take(i + 1));
    assert forall|k: Seq<char>| #[trigger] longer.contains(k) <==> shorter.contains(k) || k
        == order[i] by {
        if longer.contains(k) {
            let at = longer.index_of(k);
            if at < i {
                assert(shorter[at] == k);
            }
        }
        if shorter.contains(k) {
            let at = shorter.index_of(k);
            assert(longer[at] == k);
        }
        if k == order[i] {
            assert(longer[i] == k);
        }
    }
}

impl Duplicate for EngineState {
    fn duplicate(&self) -> (r: Self) {
        EngineState {
            specs: self.specs.duplicate(),
            states: self.states.duplicate(),
            fn_names: self.fn_names.duplicate(),
            last_runs: self.last_runs.duplicate(),
            next_runs: self.next_runs.duplicate(),
            retries_7d: self.retries_7d.duplicate(),
            retry_times: self.retry_times.duplicate(),
            pending_retries: self.pending_retries.duplicate(),
        }
    }
}

proof fn can_replay_prefixes(start: StateView, log: Seq<LogEntryView>)
    requires
        start.can_replay(log),
    ensures
        forall|k: int| 0 <= k <= log.len() ==> #[trigger] start.can_replay(log.take(k)),
    decreases log.len(),
{
    assert(log.take(log.len() as int) == log);
    if log.len() > 0 {
        can_replay_prefixes(start, log.drop_last());
        assert forall|k: int| 0 <= k <= log.len() implies #[trigger] start.can_replay(
            log.take(k),
        ) by {
            if k < log.len() {
                assert(log.take(k) == log.drop_last().take(k));
            }
        }
    }
}

/// Replaying a log in two parts gives the same state as replaying it at once.
pub proof fn replay_in_parts(start: StateView, first: Seq<LogEntryView>, second: Seq<LogEntryView>)
    ensures
        start.replay(first + second) == start.replay(first).replay(second),
        start.can_replay(first + second) <==> start.can_replay(first) && start.replay(
            first,
        ).can_replay(second),
    decreases second.len(),
{
    if second.len() == 0 {
        assert(first + second == first);
    } else {
        replay_in_parts(start, first, second.drop_last());
        assert((first + second).drop_last() == first + second.drop_last());
        assert((first + second).last() == second.last());
    }
}

/// Replaying is applying one entry after the other: no entry changes nothing, one entry is
/// its event, applied at its time, and a further one is applied to what the others gave.
pub proof fn replay_is_a_fold(start: StateView, log: Seq<LogEntryView>, entry: LogEntryView)
    ensures
        start.replay(Seq::empty()) == start,
        start.replay(seq![entry]) == start.apply(entry.event, entry.ts),
        start.replay(log.push(entry)) == start.replay(log).apply(entry.event, entry.ts),
        start.can_replay(Seq::empty()),
        start.can_replay(seq![entry]) <==> start.can_apply(entry.event),
{
    assert(seq![entry].drop_last() =~= Seq::empty());
    assert(log.push(entry).drop_last() =~= log);
    assert(start.replay(Seq::empty()) == start);
    assert(start.can_replay(Seq::empty()));
}

/// An event leaves everything about other timers as it was.
pub proof fn apply_touches_one_timer(
    state: StateView,
    event: EventView,
    ts: TimeView,
    other: Seq<char>,
)
    requires
        other != event.timer(),
    ensures
        ({
            let next = state.apply(event, ts);
            &&& found(next.specs, other) == found(state.specs, other)
            &&& found(next.states, other) == found(state.states, other)
            &&& found(next.last_runs, other) == found(state.last_runs, other)
            &&& found(next.retries_7d, other) == found(state.retries_7d, other)
            &&& found(next.retry_times, other) == found(state.retry_times, other)
            &&& found(next.pending_retries, other) == found(state.pending_retries, other)
            &&& next.summary(other) == state.summary(other)
        }),
{
}

/// No event changes the registered functions or the times of the next runs: these are
/// not part of the history.
pub proof fn apply_keeps_runtime_parts(state: StateView, event: EventView, ts: TimeView)
    ensures
        state.apply(event, ts).fn_names == state.fn_names,
        state.apply(event, ts).next_runs == state.next_runs,
{
}

/// After the old retries of a timer are let go, exactly the later ones are left, and the
/// counter that is shown is their number.
pub proof fn pruning_keeps_recent_retries(
    state: StateView,
    timer: Seq<char>,
    now: TimeView,
    at: TimeView,
)
    requires
        state.retries_7d.dom().contains(timer),
        state.retry_times.dom().contains(timer),
        state.retry_times[timer].len() <= u32::MAX,
    ensures
        ({
            let after = state.pruned(now);
            &&& after.retry_times[timer].contains(at) <==> state.retry_times[timer].contains(at)
                && now.nanos_since(at) <= RETRY_WINDOW_SECS * NANOS_PER_SEC
            &&& after.retries_7d[timer] == after.retry_times[timer].len()
        }),
{
    let times = state.retry_times[timer];
    let kept = times.filter(recent(now));
    times.lemma_filter_len(recent(now));
    if times.contains(at) && recent(now)(at) {
        times.lemma_filter_contains(recent(now), times.index_of(at));
    }
    if kept.contains(at) {
        let i = kept.index_of(at);
        times.lemma_filter_pred(recent(now), i);
        filtered_is_part(times, recent(now), i);
    }
}

proof fn filtered_is_part(times: Seq<TimeView>, keep: spec_fn(TimeView) -> bool, i: int)
    requires
        0 <= i < times.filter(keep).len(),
    ensures
        times.contains(times.filter(keep)[i]),
    decreases times.len(),
{
    reveal(Seq::filter);
    if times.len() > 0 {
        let front = times.drop_last();
        if i < front.filter(keep).len() {
            filtered_is_part(front, keep, i);
            let at = front.index_of(front.filter(keep)[i]);
            assert(times[at] == times.filter(keep)[i]);
        } else {
            assert(times.filter(keep)[i] == times.last());
            assert(times[times.len() - 1] == times.last());
        }
    }
}

/// A timer that was created has a specification and a summary, whatever happened since.
pub proof fn replayed_timers_have_summaries(log: Seq<LogEntryView>, i: int)
    requires
        0 <= i < log.len(),
        log[i].event is TimerCreated,
    ensures
        StateView::empty().replay(log).summary(log[i].event.timer()) is Some,
        StateView::empty().replay(log).specs.dom().contains(log[i].event.timer()),
    decreases log.len(),
{
    if i < log.len() - 1 {
        replayed_timers_have_summaries(log.drop_last(), i);
    }
}

} // verus!
