//! Timers and their runs.

use vstd::prelude::*;

use crate::retry::RetryPolicy;
use crate::schedule::{Schedule, ScheduleView};
use crate::strmap::Duplicate;
use crate::text::concat;
use crate::timestamp::{TimeView, Timestamp};

verus! {

/// The name of a timer.
#[derive(Debug, PartialEq, Eq, Hash)]
pub struct TimerId(pub String);

impl View for TimerId {
    type V = Seq<char>;

    open spec fn view(&self) -> Seq<char> {
        self.0@
    }
}

impl DeepView for TimerId {
    type V = Seq<char>;

    open spec fn deep_view(&self) -> Seq<char> {
        self.0@
    }
}

impl Clone for TimerId {
    fn clone(&self) -> (r: Self)
        ensures
            r@ == self@,
    {
        TimerId(self.0.clone())
    }
}

impl Duplicate for TimerId {
    fn duplicate(&self) -> (r: Self) {
        self.clone()
    }
}

impl TimerId {
    /// The timer of the given name.
    pub fn new(id: &str) -> (r: Self)
        ensures
            r@ == id@,
    {
        TimerId(id.to_owned())
    }

    /// The name.
    pub fn as_str(&self) -> (r: &str)
        ensures
            r@ == self@,
    {
        self.0.as_str()
    }
}

/// The name of a run.
#[derive(Debug, PartialEq, Eq, Hash)]
pub struct RunId(pub String);

impl View for RunId {
    type V = Seq<char>;

    open spec fn view(&self) -> Seq<char> {
        self.0@
    }
}

impl DeepView for RunId {
    type V = Seq<char>;

    open spec fn deep_view(&self) -> Seq<char> {
        self.0@
    }
}

impl Clone for RunId {
    fn clone(&self) -> (r: Self)
        ensures
            r@ == self@,
    {
        RunId(self.0.clone())
    }
}

impl Duplicate for RunId {
    fn duplicate(&self) -> (r: Self) {
        self.clone()
    }
}

impl Duplicate for (RunId, Timestamp, u32) {
    fn duplicate(&self) -> (r: Self) {
        (self.0.clone(), self.1, self.2)
    }
}

/// The characters of a universally unique lexicographically sortable identifier: the
/// digits and the upper case letters but for I, L, O and U.
pub open spec fn is_ulid_char(c: char) -> bool {
    ||| '0' <= c <= '9'
    ||| 'A' <= c <= 'Z' && c != 'I' && c != 'L' && c != 'O' && c != 'U'
}

/// Whether the text is such an identifier.
pub open spec fn is_ulid(s: Seq<char>) -> bool {
    s.len() == 26 && forall|i: int| 0 <= i < s.len() ==> is_ulid_char(#[trigger] s[i])
}

/// `ulid::Ulid::new` and `ulid::Ulid::to_string`: a fresh identifier, made from the time
/// and random bits and written with 26 characters. Which one it is depends on both, so
/// only its form is claimed.
#[verifier::external_body]
pub(crate) fn fresh_ulid() -> (r: String)
    ensures
        is_ulid(r@),
{
    ulid::Ulid::new().to_string()
}

impl RunId {
    /// The run of the given identifier.
    pub fn from_ulid(ulid: &str) -> (r: Self)
        ensures
            r@ == "run_"@ + crate::text::lowered(ulid@),
    {
        RunId(concat("run_", &crate::text::to_lower(ulid)))
    }

    /// A fresh name.
    pub fn new() -> (r: Self)
        ensures
            exists|ulid: Seq<char>| #[trigger]
                is_ulid(ulid) && r@ == "run_"@ + crate::text::lowered(ulid),
    {
        let ulid = fresh_ulid();
        assert(is_ulid(ulid@));
        RunId::from_ulid(&ulid)
    }
}

impl Default for RunId {
    fn default() -> (r: Self)
        ensures
            exists|ulid: Seq<char>| #[trigger]
                is_ulid(ulid) && r@ == "run_"@ + crate::text::lowered(ulid),
    {
        RunId::new()
    }
}

/// What happens when a run becomes due while an earlier run of the same timer is active.
#[derive(Debug, Clone, Copy, PartialEq, Eq, Structural)]
pub enum OverlapPolicy {
    /// The next run is scheduled only once the active one has finished.
    Delay,
    /// The schedule goes on by the clock, and a run that becomes due meanwhile is skipped.
    Skip,
    /// The schedule goes on by the clock, and runs may be active at the same time.
    Allow,
}

impl Default for OverlapPolicy {
    fn default() -> (r: Self)
        ensures
            r == OverlapPolicy::Delay,
    {
        OverlapPolicy::Delay
    }
}

impl OverlapPolicy {
    /// The policy of the given name.
    pub open spec fn named(name: Seq<char>) -> Option<OverlapPolicy> {
        if name == "delay"@ {
            Some(OverlapPolicy::Delay)
        } else if name == "skip"@ {
            Some(OverlapPolicy::Skip)
        } else if name == "allow"@ {
            Some(OverlapPolicy::Allow)
        } else {
            None
        }
    }

    /// The policy of the given name: `delay`, `skip` or `allow`.
    pub fn from_name(name: &str) -> (r: Option<OverlapPolicy>)
        ensures
            r == OverlapPolicy::named(name@),
    {
        if crate::text::same(name, "delay") {
            Some(OverlapPolicy::Delay)
        } else if crate::text::same(name, "skip") {
            Some(OverlapPolicy::Skip)
        } else if crate::text::same(name, "allow") {
            Some(OverlapPolicy::Allow)
        } else {
            None
        }
    }
}

/// What a timer is meant to do.
#[derive(Debug, PartialEq, Eq)]
pub struct TimerSpec {
    pub id: TimerId,
    pub schedule: Schedule,
    pub retry: RetryPolicy,
    /// The IANA name of the time zone, such as `Europe/Rome`.
    pub timezone: String,
    pub created_at: Timestamp,
    pub overlap: OverlapPolicy,
}

/// A [`TimerSpec`] as a mathematical value.
pub struct TimerSpecView {
    pub id: Seq<char>,
    pub schedule: ScheduleView,
    pub retry: RetryPolicy,
    pub timezone: Seq<char>,
    pub created_at: TimeView,
    pub overlap: OverlapPolicy,
}

impl View for TimerSpec {
    type V = TimerSpecView;

    open spec fn view(&self) -> TimerSpecView {
        TimerSpecView {
            id: self.id@,
            schedule: self.schedule@,
            retry: self.retry,
            timezone: self.timezone@,
            created_at: self.created_at@,
            overlap: self.overlap,
        }
    }
}

impl Clone for TimerSpec {
    fn clone(&self) -> (r: Self)
        ensures
            r@ == self@,
    {
        TimerSpec {
            id: self.id.clone(),
            schedule: self.schedule.clone(),
            retry: self.retry,
            timezone: self.timezone.clone(),
            created_at: self.created_at,
            overlap: self.overlap,
        }
    }
}

impl Duplicate for TimerSpec {
    fn duplicate(&self) -> (r: Self) {
        self.clone()
    }
}

/// One execution of a timer.
#[derive(Debug)]
pub struct Run {
    pub id: RunId,
    pub timer_id: TimerId,
    pub scheduled_at: Timestamp,
    pub started_at: Option<Timestamp>,
    pub finished_at: Option<Timestamp>,
    pub attempt: u32,
}

impl Run {
    /// The first attempt of a run that has not started, under the given name.
    pub fn with_id(id: RunId, timer_id: TimerId, scheduled_at: Timestamp) -> (r: Self)
        ensures
            r.id@ == id@,
            r.timer_id@ == timer_id@,
            r.scheduled_at@ == scheduled_at@,
            r.started_at is None,
            r.finished_at is None,
            r.attempt == 1,
    {
        Run { id, timer_id, scheduled_at, started_at: None, finished_at: None, attempt: 1 }
    }

    /// The first attempt of a run that has not started, under a fresh name.
    pub fn new(timer_id: TimerId, scheduled_at: Timestamp) -> (r: Self)
        ensures
            exists|ulid: Seq<char>| #[trigger]
                is_ulid(ulid) && r.id@ == "run_"@ + crate::text::lowered(ulid),
            r.timer_id@ == timer_id@,
            r.scheduled_at@ == scheduled_at@,
            r.started_at is None,
            r.finished_at is None,
            r.attempt == 1,
    {
        Run::with_id(RunId::new(), timer_id, scheduled_at)
    }

    /// The milliseconds between start and finish, once the run has done both.
    pub open spec fn duration(self) -> Option<nat> {
        match (self.started_at.deep_view(), self.finished_at.deep_view()) {
            (Some(start), Some(end)) => Some(end.millis_since(start)),
            _ => None,
        }
    }

    /// The milliseconds between start and finish, once the run has done both.
    pub fn duration_ms(&self) -> (r: Option<u64>)
        ensures
            match r {
                Some(ms) => self.duration() == Some(ms as nat),
                None => self.duration() is None,
            },
    {
        match (self.started_at, self.finished_at) {
            (Some(start), Some(end)) => Some(end.millis_since(&start)),
            _ => None,
        }
    }
}

/// What a timer is doing.
#[derive(Debug, Clone, Copy, PartialEq, Eq, Structural)]
pub enum TimerState {
    /// The timer is active and has a registered function.
    Scheduled,
    /// A run is executing.
    Running,
    /// A run failed and is waiting to be tried again.
    Retrying,
    /// A run has used up its attempts.
    Dead,
    /// The timer is in the log, but no function was registered for it since the start.
    Orphaned,
    /// The timer was paused.
    Paused,
    /// The timer was cancelled and will not fire again.
    Cancelled,
}

impl View for TimerState {
    type V = TimerState;

    open spec fn view(&self) -> TimerState {
        *self
    }
}

impl Duplicate for TimerState {
    fn duplicate(&self) -> (r: Self) {
        *self
    }
}

impl TimerState {
    /// The name of the state.
    pub open spec fn name(self) -> Seq<char> {
        match self {
            TimerState::Scheduled => "scheduled"@,
            TimerState::Running => "running"@,
            TimerState::Retrying => "retrying"@,
            TimerState::Dead => "dead"@,
            TimerState::Orphaned => "orphaned"@,
            TimerState::Paused => "paused"@,
            TimerState::Cancelled => "cancelled"@,
        }
    }
}

/// The name of a state, as it is shown to users.
pub fn format_state(state: &TimerState) -> (r: &'static str)
    ensures
        r@ == state.name(),
{
    match state {
        TimerState::Scheduled => "scheduled",
        TimerState::Running => "running",
        TimerState::Retrying => "retrying",
        TimerState::Dead => "dead",
        TimerState::Orphaned => "orphaned",
        TimerState::Paused => "paused",
        TimerState::Cancelled => "cancelled",
    }
}

/// What is shown of a timer.
#[derive(Debug)]
pub struct TimerSummary {
    pub id: TimerId,
    pub state: TimerState,
    pub fn_name: Option<String>,
    pub last_run_at: Option<Timestamp>,
    pub last_duration_ms: Option<u64>,
    pub last_status: Option<String>,
    pub next_run_at: Option<Timestamp>,
    pub retries_last_7d: u32,
}

/// A [`TimerSummary`] as a mathematical value.
pub struct TimerSummaryView {
    pub id: Seq<char>,
    pub state: TimerState,
    pub fn_name: Option<Seq<char>>,
    pub last_run_at: Option<TimeView>,
    pub last_duration_ms: Option<u64>,
    pub last_status: Option<Seq<char>>,
    pub next_run_at: Option<TimeView>,
    pub retries_last_7d: u32,
}

impl View for TimerSummary {
    type V = TimerSummaryView;

    open spec fn view(&self) -> TimerSummaryView {
        TimerSummaryView {
            id: self.id@,
            state: self.state,
            fn_name: self.fn_name.deep_view(),
            last_run_at: self.last_run_at.deep_view(),
            last_duration_ms: self.last_duration_ms,
            last_status: self.last_status.deep_view(),
            next_run_at: self.next_run_at.deep_view(),
            retries_last_7d: self.retries_last_7d,
        }
    }
}

impl DeepView for TimerSummary {
    type V = TimerSummaryView;

    open spec fn deep_view(&self) -> TimerSummaryView {
        self@
    }
}

} // verus!
