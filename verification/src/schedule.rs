//! When a timer fires.

use vstd::prelude::*;

use crate::error::{KronError, KronErrorView};
use crate::strmap::Duplicate;
use crate::text::{concat, parse_number, same, trim};
use crate::timestamp::{TimeView, Timestamp};
use crate::weekday::complete_cron;

verus! {

/// A rule for the times at which a timer fires.
#[derive(Debug, PartialEq, Eq)]
pub enum Schedule {
    /// A standard cron expression of five fields: `min hour day month weekday`, with the
    /// weekdays from 0 or 7 for Sunday to 6 for Saturday.
    Cron { expr: String },
    /// Repeat after a fixed number of seconds.
    Every { seconds: u64 },
    /// Fire once at an instant.
    At { at: Timestamp },
    /// Fire once, a number of seconds after the registration.
    After { seconds: u64, registered_at: Timestamp },
}

/// A [`Schedule`] as a mathematical value.
pub enum ScheduleView {
    Cron { expr: Seq<char> },
    Every { seconds: u64 },
    At { at: TimeView },
    After { seconds: u64, registered_at: TimeView },
}

impl View for Schedule {
    type V = ScheduleView;

    open spec fn view(&self) -> ScheduleView {
        match self {
            Schedule::Cron { expr } => ScheduleView::Cron { expr: expr@ },
            Schedule::Every { seconds } => ScheduleView::Every { seconds: *seconds },
            Schedule::At { at } => ScheduleView::At { at: at@ },
            Schedule::After { seconds, registered_at } => ScheduleView::After {
                seconds: *seconds,
                registered_at: registered_at@,
            },
        }
    }
}

impl Clone for Schedule {
    fn clone(&self) -> (r: Self)
        ensures
            r@ == self@,
    {
        match self {
            Schedule::Cron { expr } => Schedule::Cron { expr: expr.clone() },
            Schedule::Every { seconds } => Schedule::Every { seconds: *seconds },
            Schedule::At { at } => Schedule::At { at: *at },
            Schedule::After { seconds, registered_at } => Schedule::After {
                seconds: *seconds,
                registered_at: *registered_at,
            },
        }
    }
}

impl Duplicate for Schedule {
    fn duplicate(&self) -> (r: Self) {
        self.clone()
    }
}

/// Whether the time zone database has a zone of this name.
pub uninterp spec fn timezone_known(name: Seq<char>) -> bool;

/// Whether the text is a cron expression of seven fields.
pub uninterp spec fn cron_valid(expr: Seq<char>) -> bool;

/// The first occurrence of a cron expression of seven fields in a time zone, from one
/// second after the given instant on, as seconds and nanoseconds.
pub uninterp spec fn cron_next(
    expr: Seq<char>,
    timezone: Seq<char>,
    secs: int,
    nanos: int,
) -> Option<(int, int)>;

/// `chrono_tz::Tz::from_str`: whether the name is that of a zone. It depends on the name
/// alone, since the database is part of the crate.
#[verifier::external_body]
fn is_timezone(name: &str) -> (r: bool)
    ensures
        r == timezone_known(name@),
{
    name.parse::<chrono_tz::Tz>().is_ok()
}

/// `cron::Schedule::from_str`: fails on what is not a cron expression of seven fields,
/// always with the same message.
#[verifier::external_body]
fn check_cron(expr: &str) -> (r: Result<(), String>)
    ensures
        match r {
            Ok(_) => cron_valid(expr@),
            Err(message) => !cron_valid(expr@) && message@
                == "Invalid expression: Invalid cron expression."@,
        },
{
    match <cron::Schedule as core::str::FromStr>::from_str(expr) {
        Ok(_) => Ok(()),
        Err(error) => Err(error.to_string()),
    }
}

/// The first instant from which on every time zone has every day of the calendar.
pub const CRON_FROM: i64 = 1325376000;

/// Whether the time zone left out a day of the calendar since 1970, the first year that a
/// cron expression can mean: each of these went over the date line from east to west.
pub open spec fn left_out_a_day(timezone: Seq<char>) -> bool {
    ||| timezone == "Kwajalein"@
    ||| timezone == "Pacific/Apia"@
    ||| timezone == "Pacific/Enderbury"@
    ||| timezone == "Pacific/Fakaofo"@
    ||| timezone == "Pacific/Kanton"@
    ||| timezone == "Pacific/Kiritimati"@
    ||| timezone == "Pacific/Kwajalein"@
}

/// Whether occurrences of a cron expression after the instant can be looked for in the
/// time zone.
pub open spec fn cron_searchable_in(after: TimeView, timezone: Seq<char>) -> bool {
    (CRON_FROM <= after.secs || !left_out_a_day(timezone)) && after.can_add(1)
}

/// Whether occurrences of a cron expression after the instant can be looked for in the
/// time zone.
fn cron_fits(after: Timestamp, timezone: &str) -> (r: bool)
    ensures
        r == cron_searchable_in(after@, timezone@),
{
    let left_out = same(timezone, "Kwajalein") || same(timezone, "Pacific/Apia") || same(
        timezone,
        "Pacific/Enderbury",
    ) || same(timezone, "Pacific/Fakaofo") || same(timezone, "Pacific/Kanton") || same(
        timezone,
        "Pacific/Kiritimati",
    ) || same(timezone, "Pacific/Kwajalein");
    (CRON_FROM <= after.secs() || !left_out) && after.plus(1).is_some()
}

/// `cron::Schedule::after` and the `next` of its iterator: the first occurrence after an
/// instant, in the zone, of an expression that is valid. The search begins in 1970 at the
/// earliest. It panics where it meets a day that the zone left out, which last happened in
/// 2011 (`Pacific/Apia`), or where the second after the instant cannot be represented. It
/// starts at the second after the instant, in the local time of the zone, and passes over
/// local times that the zone has twice or not at all: so what it finds lies after the
/// instant.
#[verifier::external_body]
fn next_occurrence(expr: &str, timezone: &str, after: Timestamp) -> (r: Option<Timestamp>)
    requires
        timezone_known(timezone@),
        cron_valid(expr@),
        cron_searchable_in(after@, timezone@),
    ensures
        match r {
            Some(t) => cron_next(expr@, timezone@, after@.secs, after@.nanos) == Some(
                (t@.secs, t@.nanos),
            ) && after@.before(t@),
            None => cron_next(expr@, timezone@, after@.secs, after@.nanos) is None,
        },
{
    let zone: chrono_tz::Tz = timezone.parse().unwrap();
    let schedule = <cron::Schedule as core::str::FromStr>::from_str(expr).unwrap();
    let start = chrono::DateTime::from_timestamp(after.secs(), after.nanos()).unwrap();
    let next = schedule.after(&start.with_timezone(&zone)).next()?;
    Timestamp::new(next.timestamp(), next.timestamp_subsec_nanos())
}

/// What is known of the cron expression of a schedule.
pub enum CronAnswer {
    /// The expression is not valid, with the reason.
    Invalid(String),
    /// The next occurrence, if there is one.
    Next(Option<Timestamp>),
}

/// A [`CronAnswer`] as a mathematical value.
pub enum CronAnswerView {
    Invalid(Seq<char>),
    Next(Option<TimeView>),
}

impl View for CronAnswer {
    type V = CronAnswerView;

    open spec fn view(&self) -> CronAnswerView {
        match self {
            CronAnswer::Invalid(s) => CronAnswerView::Invalid(s@),
            CronAnswer::Next(t) => CronAnswerView::Next(t.deep_view()),
        }
    }
}

/// What is known of a cron expression of five fields, looked up from an instant on.
pub open spec fn cron_answer(expr: Seq<char>, timezone: Seq<char>, after: TimeView) -> CronAnswerView {
    let full = crate::weekday::full_cron(expr);
    if cron_valid(full) {
        CronAnswerView::Next(
            match cron_next(full, timezone, after.secs, after.nanos) {
                Some((secs, nanos)) => Some(TimeView { secs, nanos }),
                None => None,
            },
        )
    } else {
        CronAnswerView::Invalid("Invalid expression: Invalid cron expression."@)
    }
}

/// The view of a next run time or of the error in its place.
pub open spec fn run_view(r: Result<Option<Timestamp>, KronError>) -> Result<
    Option<TimeView>,
    KronErrorView,
> {
    match r {
        Ok(t) => Ok(t.deep_view()),
        Err(e) => Err(e@),
    }
}

impl ScheduleView {
    /// Whether the schedule fires only once.
    pub open spec fn one_shot(self) -> bool {
        self is At || self is After
    }

    /// Whether the next run after an instant can be computed in the time zone: the
    /// arithmetic stays within the instants that can be represented, and a cron expression
    /// is looked up from a time on at which it can be.
    pub open spec fn can_run_after(self, after: TimeView, timezone: Seq<char>) -> bool {
        match self {
            ScheduleView::Cron { .. } => cron_searchable_in(after, timezone),
            ScheduleView::Every { seconds } => after.can_add(seconds as int),
            ScheduleView::At { .. } => true,
            ScheduleView::After { seconds, registered_at } => registered_at.can_add(
                seconds as int,
            ),
        }
    }

    /// Whether the next run after an instant can be computed in the time zone, or is an
    /// error: an unknown zone and an invalid cron expression are, whatever the instant is.
    pub open spec fn can_run_in(self, after: TimeView, timezone: Seq<char>) -> bool {
        timezone_known(timezone) && (self matches ScheduleView::Cron { expr } ==> cron_valid(
            crate::weekday::full_cron(expr),
        )) ==> self.can_run_after(after, timezone)
    }

    /// The next run after an instant, given whether the time zone is known and what the
    /// cron expression says.
    pub open spec fn next_given(
        self,
        after: TimeView,
        timezone: Seq<char>,
        known: bool,
        cron: CronAnswerView,
    ) -> Result<Option<TimeView>, KronErrorView> {
        if !known {
            Err(KronErrorView::InvalidTimezone(timezone))
        } else {
            match self {
                ScheduleView::Cron { .. } => match cron {
                    CronAnswerView::Invalid(reason) => Err(KronErrorView::InvalidCron(reason)),
                    CronAnswerView::Next(t) => Ok(t),
                },
                ScheduleView::Every { seconds } => Ok(
                    Some(after.plus(seconds as int)),
                ),
                ScheduleView::At { at } => Ok(
                    if after.before(at) {
                        Some(at)
                    } else {
                        None
                    },
                ),
                ScheduleView::After { seconds, registered_at } => {
                    let at = registered_at.plus(seconds as int);
                    Ok(
                        if after.before(at) {
                            Some(at)
                        } else {
                            None
                        },
                    )
                },
            }
        }
    }

    /// The next run after an instant in a time zone.
    pub open spec fn next(self, after: TimeView, timezone: Seq<char>) -> Result<
        Option<TimeView>,
        KronErrorView,
    > {
        let cron = match self {
            ScheduleView::Cron { expr } => cron_answer(expr, timezone, after),
            _ => CronAnswerView::Next(None),
        };
        self.next_given(after, timezone, timezone_known(timezone), cron)
    }
}

impl Schedule {
    /// The next run after `after`, given whether the time zone is known and what the cron
    /// expression says; `Ok(None)` for a schedule that has fired its last time.
    pub fn next_run_given(
        &self,
        after: Timestamp,
        tz: &str,
        known: bool,
        cron: CronAnswer,
    ) -> (r: Result<Option<Timestamp>, KronError>)
        requires
            known ==> self@ is Cron || self@.can_run_after(after@, tz@),
        ensures
            run_view(r) == self@.next_given(after@, tz@, known, cron@),
    {
        if !known {
            return Err(KronError::InvalidTimezone(tz.to_owned()));
        }
        match self {
            Schedule::Cron { .. } => match cron {
                CronAnswer::Invalid(reason) => Err(KronError::InvalidCron(reason)),
                CronAnswer::Next(t) => Ok(t),
            },
            Schedule::Every { seconds } => Ok(after.plus_seconds(*seconds)),
            Schedule::At { at } => if after.before(at) {
                Ok(Some(*at))
            } else {
                Ok(None)
            },
            Schedule::After { seconds, registered_at } => {
                match registered_at.plus_seconds(*seconds) {
                    Some(at) => if after.before(&at) {
                        Ok(Some(at))
                    } else {
                        Ok(None)
                    },
                    None => Ok(None),
                }
            },
        }
    }

    /// The next run after `after` in the time zone of the IANA name `tz`; `Ok(None)` for a
    /// schedule that has fired its last time. The run lies after `after`; that of a
    /// repeating schedule does unless its interval is none, see [`every_run_is_later`].
    pub fn next_run_after(&self, after: Timestamp, tz: &str) -> (r: Result<
        Option<Timestamp>,
        KronError,
    >)
        requires
            self@.can_run_in(after@, tz@),
        ensures
            run_view(r) == self@.next(after@, tz@),
            !(self@ is Every) ==> (r matches Ok(Some(t)) ==> after@.before(t@)),
    {
        if !is_timezone(tz) {
            return Err(KronError::InvalidTimezone(tz.to_owned()));
        }
        let cron = match self {
            Schedule::Cron { expr } => {
                let full = complete_cron(expr);
                match check_cron(&full) {
                    Ok(_) => CronAnswer::Next(next_occurrence(&full, tz, after)),
                    Err(reason) => CronAnswer::Invalid(reason),
                }
            },
            _ => CronAnswer::Next(None),
        };
        self.next_run_given(after, tz, true, cron)
    }

    /// Whether the next run after an instant can be computed in the time zone.
    pub fn fits(&self, after: Timestamp, tz: &str) -> (r: bool)
        ensures
            r == self@.can_run_after(after@, tz@),
    {
        match self {
            Schedule::Cron { .. } => cron_fits(after, tz),
            Schedule::Every { seconds } => after.plus_seconds(*seconds).is_some(),
            Schedule::At { .. } => true,
            Schedule::After { seconds, registered_at } => registered_at.plus_seconds(
                *seconds,
            ).is_some(),
        }
    }

    /// The next run after `after`, or `None` where it cannot be computed.
    pub fn checked_next_run_after(&self, after: Timestamp, tz: &str) -> (r: Option<
        Result<Option<Timestamp>, KronError>,
    >)
        ensures
            match r {
                Some(run) => {
                    &&& self@.can_run_in(after@, tz@)
                    &&& run_view(run) == self@.next(after@, tz@)
                    &&& !(self@ is Every) ==> (run matches Ok(Some(t)) ==> after@.before(t@))
                },
                None => !self@.can_run_in(after@, tz@),
            },
    {
        if !is_timezone(tz) {
            return Some(self.next_run_after(after, tz));
        }
        let possible = match self {
            Schedule::Cron { expr } => {
                let full = complete_cron(expr);
                check_cron(&full).is_err() || self.fits(after, tz)
            },
            _ => self.fits(after, tz),
        };
        if possible {
            Some(self.next_run_after(after, tz))
        } else {
            None
        }
    }

    /// Whether the schedule fires only once.
    pub fn is_one_shot(&self) -> (r: bool)
        ensures
            r == self@.one_shot(),
    {
        matches!(self, Schedule::At { .. } | Schedule::After { .. })
    }

    /// Whether two schedules are the same.
    pub fn same(&self, other: &Schedule) -> (r: bool)
        ensures
            r == (self@ == other@),
    {
        match (self, other) {
            (Schedule::Cron { expr: a }, Schedule::Cron { expr: b }) => crate::text::same(a, b),
            (Schedule::Every { seconds: a }, Schedule::Every { seconds: b }) => *a == *b,
            (Schedule::At { at: a }, Schedule::At { at: b }) => a.same(b),
            (
                Schedule::After { seconds: a, registered_at: x },
                Schedule::After { seconds: b, registered_at: y },
            ) => *a == *b && x.same(y),
            _ => false,
        }
    }
}

/// A one-shot schedule that gives no next run after an instant gives none after any
/// later instant: once it has fired it never fires again.
pub proof fn one_shot_fires_once(
    schedule: ScheduleView,
    timezone: Seq<char>,
    earlier: TimeView,
    later: TimeView,
)
    requires
        schedule.one_shot(),
        schedule.next(earlier, timezone) == Ok::<_, KronErrorView>(None::<TimeView>),
        earlier.not_after(later),
    ensures
        schedule.next(later, timezone) == Ok::<_, KronErrorView>(None::<TimeView>),
{
}

/// The next run of a one-shot schedule, where there is one, lies after the instant it was
/// asked for, and after that run there is none.
pub proof fn one_shot_run_is_later_and_last(
    schedule: ScheduleView,
    timezone: Seq<char>,
    after: TimeView,
    at: TimeView,
)
    requires
        schedule.one_shot(),
        schedule.next(after, timezone) == Ok::<_, KronErrorView>(Some(at)),
    ensures
        after.before(at),
        schedule.next(at, timezone) == Ok::<_, KronErrorView>(None::<TimeView>),
{
}

/// A repeating schedule with a positive interval within the signed range runs next after
/// the instant it was asked for, by exactly the interval.
pub proof fn every_run_is_later(seconds: u64, timezone: Seq<char>, after: TimeView)
    requires
        timezone_known(timezone),
        0 < seconds,
        after.valid(),
    ensures
        ({
            let next = (ScheduleView::Every { seconds }).next(after, timezone);
            &&& next == Ok::<_, KronErrorView>(Some(after.plus(seconds as int)))
            &&& after.before(after.plus(seconds as int))
        }),
{
}

/// An unknown time zone is an error for every schedule.
pub proof fn unknown_timezone_is_rejected(
    schedule: ScheduleView,
    timezone: Seq<char>,
    after: TimeView,
)
    requires
        !timezone_known(timezone),
    ensures
        schedule.next(after, timezone) == Err::<Option<TimeView>, _>(
            KronErrorView::InvalidTimezone(timezone),
        ),
{
}

/// The seconds in the unit of a duration.
pub open spec fn unit_seconds(unit: char) -> nat {
    if unit == 's' {
        1
    } else if unit == 'm' {
        60
    } else if unit == 'h' {
        3600
    } else {
        86400
    }
}

/// Whether the text, apart from white space at its ends, ends with a unit of duration.
pub open spec fn has_unit(s: Seq<char>) -> bool {
    let t = crate::text::trimmed(s);
    t.len() > 0 && (t.last() == 's' || t.last() == 'm' || t.last() == 'h' || t.last() == 'd')
}

/// The number in front of the unit of a duration, if there is one.
pub open spec fn duration_count(s: Seq<char>) -> Option<nat> {
    crate::text::parsed_number(crate::text::trimmed(s).drop_last(), u64::MAX as nat)
}

/// Whether the seconds of a duration stay within 64 bits.
pub open spec fn duration_fits(s: Seq<char>) -> bool {
    has_unit(s) && duration_count(s) is Some ==> duration_count(s)->0 * unit_seconds(
        crate::text::trimmed(s).last(),
    ) <= u64::MAX
}

/// The seconds of a duration such as `90s`, `30m`, `2h` or `1d`.
pub open spec fn parsed_duration(s: Seq<char>) -> Result<nat, KronErrorView> {
    let t = crate::text::trimmed(s);
    if !has_unit(s) {
        Err(KronErrorView::InvalidCron("duration must end with s/m/h/d: "@ + t))
    } else {
        match duration_count(s) {
            Some(n) => Ok(n * unit_seconds(t.last())),
            None => Err(KronErrorView::InvalidCron("invalid duration: "@ + t)),
        }
    }
}

/// A number followed by a unit is the duration of that many units.
pub proof fn duration_of_number_and_unit(n: nat, unit: char)
    requires
        n <= u64::MAX,
        unit == 's' || unit == 'm' || unit == 'h' || unit == 'd',
    ensures
        parsed_duration(crate::text::decimal(n).push(unit)) == Ok::<nat, KronErrorView>(
            n * unit_seconds(unit),
        ),
        n <= n * unit_seconds(unit),
{
    let d = crate::text::decimal(n);
    let s = d.push(unit);
    crate::text::decimal_round_trip(n);
    assert(s[0] == d[0]);
    assert(crate::text::trimmed(s) == s);
    assert(s.drop_last() == d);
    assert(n <= n * unit_seconds(unit)) by (nonlinear_arith)
        requires
            unit_seconds(unit) >= 1,
    ;
}

/// The view of a number of seconds or of the error in its place.
pub open spec fn duration_view(r: Result<u64, KronError>) -> Result<nat, KronErrorView> {
    match r {
        Ok(n) => Ok(n as nat),
        Err(e) => Err(e@),
    }
}

/// The text in front of a unit, and the seconds of the unit.
fn split_unit(t: &str) -> (r: Option<(String, u64)>)
    ensures
        match r {
            Some((count, unit)) => {
                &&& t@.len() > 0
                &&& t@.last() == 's' || t@.last() == 'm' || t@.last() == 'h' || t@.last() == 'd'
                &&& count@ == t@.drop_last()
                &&& unit == unit_seconds(t@.last())
            },
            None => !(t@.len() > 0 && (t@.last() == 's' || t@.last() == 'm' || t@.last() == 'h'
                || t@.last() == 'd')),
        },
{
    let v = crate::text::chars_of(t);
    if v.len() == 0 {
        return None;
    }
    let n: usize = v.len() - 1;
    let unit: u64 = if v[n] == 's' {
        1
    } else if v[n] == 'm' {
        60
    } else if v[n] == 'h' {
        3600
    } else if v[n] == 'd' {
        86400
    } else {
        return None;
    };
    let count = crate::text::string_of(&v, 0, n);
    assert(t@.subrange(0, n as int) == t@.drop_last());
    Some((count, unit))
}

/// Whether the seconds of a duration stay within 64 bits.
pub fn duration_str_fits(s: &str) -> (r: bool)
    ensures
        r == duration_fits(s@),
{
    let t = trim(s);
    match split_unit(&t) {
        Some((count, unit)) => match parse_number(&count, u64::MAX) {
            Some(n) => n.checked_mul(unit).is_some(),
            None => true,
        },
        None => true,
    }
}

/// Reads a duration such as `90s`, `30m`, `2h` or `1d` as a number of seconds.
pub fn parse_duration_str(s: &str) -> (r: Result<u64, KronError>)
    requires
        duration_fits(s@),
    ensures
        duration_view(r) == parsed_duration(s@),
{
    let t = trim(s);
    match split_unit(&t) {
        Some((count, unit)) => match parse_number(&count, u64::MAX) {
            Some(n) => Ok(n * unit),
            None => Err(KronError::InvalidCron(concat("invalid duration: ", &t))),
        },
        None => Err(KronError::InvalidCron(concat("duration must end with s/m/h/d: ", &t))),
    }
}

} // verus!
