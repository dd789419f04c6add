//! Instants, delays and schedules.

use vstd::prelude::*;

use crate::error::KronErrorView;
use crate::heap::ScheduledView;
use crate::retry::{BackoffStrategy, RetryPolicy};
use crate::schedule::ScheduleView;
use crate::timestamp::{TimeView, MAX_SECS, MIN_SECS, NANOS_PER_SEC};
use vstd::multiset::Multiset;

verus! {

/// Two instants are in order by their seconds, and within one second by their nanoseconds:
/// exactly one of before, equal and after holds, and before is transitive.
pub proof fn instants_are_in_order(a: TimeView, b: TimeView, c: TimeView)
    ensures
        !a.before(a),
        a.before(b) || b.before(a) || a == b,
        !(a.before(b) && b.before(a)),
        a.before(b) && b.before(c) ==> a.before(c),
        a.not_after(b) <==> a.before(b) || a == b,
        a.secs < b.secs ==> a.before(b),
        a.secs == b.secs ==> (a.before(b) <==> a.nanos < b.nanos),
{
}

/// Seconds that are added count: the instant is that many seconds later, and within the
/// range of instants wherever its seconds are. What is added twice is added at once, and
/// nothing is lost when it is taken away again.
pub proof fn added_seconds_count(a: TimeView, n: int, m: int)
    requires
        0 <= a.nanos < NANOS_PER_SEC,
    ensures
        a.plus(n).secs == a.secs + n,
        a.plus(n).nanos == a.nanos,
        a.plus(n).plus(m) == a.plus(n + m),
        a.plus(n).plus(-n) == a,
        a.plus(n).nanos_since(a) == n * 1_000_000_000,
        n >= 0 ==> a.plus(n).millis_since(a) == n * 1000,
        a.before(a.plus(n)) <==> n > 0,
        a.can_add(n) <==> MIN_SECS <= a.secs + n <= MAX_SECS,
{
    if n >= 0 {
        assert((n * 1_000_000_000) / 1_000_000 == n * 1000);
    }
}

/// The milliseconds between two instants are none if the second is not later, and else the
/// whole milliseconds of what lies between them.
pub proof fn milliseconds_are_whole(a: TimeView, b: TimeView)
    requires
        0 <= a.nanos < NANOS_PER_SEC,
        0 <= b.nanos < NANOS_PER_SEC,
    ensures
        b.not_after(a) ==> b.millis_since(a) == 0,
        a.before(b) ==> {
            let between = (b.secs - a.secs) * 1_000_000_000 + (b.nanos - a.nanos);
            b.millis_since(a) * 1_000_000 <= between < (b.millis_since(a) + 1) * 1_000_000
        },
{
}

proof fn doubled(base: int, k: nat)
    requires
        base >= 0,
    ensures
        base * vstd::arithmetic::power::pow(2, k + 1) == 2 * (base * vstd::arithmetic::power::pow(
            2,
            k,
        )),
        vstd::arithmetic::power::pow(2, k) >= 1,
        base >= 1 ==> base * vstd::arithmetic::power::pow(2, k) >= vstd::arithmetic::power::pow(
            2,
            k,
        ),
        base * vstd::arithmetic::power::pow(2, k) >= 0,
    decreases k,
{
    let p = vstd::arithmetic::power::pow(2, k);
    reveal(vstd::arithmetic::power::pow);
    if k > 0 {
        doubled(base, (k - 1) as nat);
    }
    assert(vstd::arithmetic::power::pow(2, k + 1) == 2 * p);
    assert(base * (2 * p) == 2 * (base * p)) by (nonlinear_arith);
    assert(base >= 1 && p >= 1 ==> base * p >= p) by (nonlinear_arith);
    assert(base >= 0 && p >= 1 ==> base * p >= 0) by (nonlinear_arith);
}

proof fn exponential_is_capped_power(base_seconds: u64, max_seconds: u64, attempt: int)
    requires
        attempt >= 1,
    ensures
        ({
            let p = base_seconds * vstd::arithmetic::power::pow(2, (attempt - 1) as nat);
            (BackoffStrategy::Exponential { base_seconds, max_seconds }).delay(attempt) == if p
                <= max_seconds {
                p
            } else {
                max_seconds as int
            }
        }),
{
    let k = (attempt - 1) as nat;
    let p = vstd::arithmetic::power::pow(2, k);
    doubled(base_seconds as int, k);
    if p > u64::MAX && base_seconds >= 1 {
        assert(base_seconds * u64::MAX >= u64::MAX) by (nonlinear_arith)
            requires
                base_seconds >= 1,
        ;
    }
    if base_seconds == 0 {
        assert(base_seconds * p == 0) by (nonlinear_arith)
            requires
                base_seconds == 0,
        ;
        assert(base_seconds * u64::MAX == 0) by (nonlinear_arith)
            requires
                base_seconds == 0,
        ;
    }
}

/// A fixed delay is the same for every attempt. An exponential one begins with its base and
/// doubles with every further attempt, a linear one begins with its base and grows by its
/// step; both stop at their cap.
pub proof fn delays_grow_as_told(
    seconds: u64,
    base_seconds: u64,
    step_seconds: u64,
    max_seconds: u64,
    attempt: int,
)
    requires
        attempt >= 1,
    ensures
        ({
            let fixed = BackoffStrategy::Fixed { seconds };
            let exponential = BackoffStrategy::Exponential { base_seconds, max_seconds };
            let linear = BackoffStrategy::Linear { base_seconds, step_seconds, max_seconds };
            let (e, e1) = (exponential.delay(attempt), exponential.delay(attempt + 1));
            let (l, l1) = (linear.delay(attempt), linear.delay(attempt + 1));
            &&& fixed.delay(attempt) == seconds
            &&& base_seconds <= max_seconds ==> exponential.delay(1) == base_seconds
                && linear.delay(1) == base_seconds
            &&& base_seconds > max_seconds ==> exponential.delay(1) == max_seconds
                && linear.delay(1) == max_seconds
            &&& 2 * e <= max_seconds ==> e1 == 2 * e
            &&& 2 * e > max_seconds ==> e1 == max_seconds
            &&& l + step_seconds <= max_seconds ==> l1 == l + step_seconds
            &&& l + step_seconds > max_seconds ==> l1 == max_seconds
        }),
{
    let k = (attempt - 1) as nat;
    exponential_is_capped_power(base_seconds, max_seconds, attempt);
    exponential_is_capped_power(base_seconds, max_seconds, attempt + 1);
    exponential_is_capped_power(base_seconds, max_seconds, 1);
    doubled(base_seconds as int, k);
    assert(vstd::arithmetic::power::pow(2, 0) == 1) by {
        reveal(vstd::arithmetic::power::pow);
    }
    assert(base_seconds * 1 == base_seconds) by (nonlinear_arith);
    assert(step_seconds * (attempt + 1 - 1) == step_seconds * (attempt - 1) + step_seconds)
        by (nonlinear_arith);
    assert(step_seconds * (attempt - 1) >= 0) by (nonlinear_arith)
        requires
            attempt >= 1,
    ;
    assert(step_seconds * (1int - 1) == 0);
}

/// A policy grants an attempt after every failure but that of the last attempt, and the
/// attempt is due when the delay of its strategy has passed since the failure.
pub proof fn attempts_are_granted_up_to_the_limit(policy: RetryPolicy, from: TimeView, attempt: int)
    requires
        0 <= from.nanos < NANOS_PER_SEC,
    ensures
        policy.retry_at(from, attempt) is None <==> attempt >= policy.max_attempts,
        attempt < policy.max_attempts ==> {
            let at = policy.retry_at(from, attempt)->0;
            at.nanos_since(from) == policy.backoff.delay(attempt) * 1_000_000_000
        },
{
    added_seconds_count(from, policy.backoff.delay(attempt), 0);
}

/// When a schedule fires next, after an instant in a known time zone: a repeating one the
/// interval later, one for an instant at that instant if it is still to come, one for a
/// delay when the delay has passed since the registration if that is still to come. None of
/// these depends on the zone.
pub proof fn schedules_fire_as_told(
    seconds: u64,
    at: TimeView,
    registered_at: TimeView,
    after: TimeView,
    timezone: Seq<char>,
)
    requires
        crate::schedule::timezone_known(timezone),
        0 <= after.nanos < NANOS_PER_SEC,
        0 <= registered_at.nanos < NANOS_PER_SEC,
    ensures
        ({
            let every = (ScheduleView::Every { seconds }).next(after, timezone);
            let once = (ScheduleView::At { at }).next(after, timezone);
            let delayed = (ScheduleView::After { seconds, registered_at }).next(after, timezone);
            &&& every == Ok::<_, KronErrorView>(
                Some(TimeView { secs: after.secs + seconds, nanos: after.nanos }),
            )
            &&& once is Ok && delayed is Ok
            &&& once->Ok_0 is Some <==> after.before(at)
            &&& once->Ok_0 is Some ==> once->Ok_0->0 == at
            &&& delayed->Ok_0 is Some ==> delayed->Ok_0->0.secs == registered_at.secs + seconds
                && delayed->Ok_0->0.nanos == registered_at.nanos
            &&& delayed->Ok_0 is Some <==> after.secs < registered_at.secs + seconds || (after.secs
                == registered_at.secs + seconds && after.nanos < registered_at.nanos)
        }),
{
}

/// A cron schedule fires at the occurrence that its own expression has in its own time zone
/// after the instant, by the common numbers of the weekdays; one that is not valid is
/// refused, whatever the zone and the instant are.
pub proof fn cron_fires_in_its_zone(expr: Seq<char>, after: TimeView, timezone: Seq<char>)
    requires
        crate::schedule::timezone_known(timezone),
    ensures
        ({
            let full = crate::weekday::full_cron(expr);
            let next = (ScheduleView::Cron { expr }).next(after, timezone);
            &&& next is Ok <==> crate::schedule::cron_valid(full)
            &&& next is Err ==> next->Err_0 is InvalidCron
            &&& next is Ok ==> match crate::schedule::cron_next(
                full,
                timezone,
                after.secs,
                after.nanos,
            ) {
                Some((secs, nanos)) => next->Ok_0 == Some(TimeView { secs, nanos }),
                None => next->Ok_0 is None,
            }
        }),
{
}

/// A number with a unit is that many seconds, minutes, hours or days, white space around it
/// or not. What has no unit or no number is refused with its text.
pub proof fn durations_are_read_as_told(n: nat, unit: char)
    requires
        n <= u64::MAX,
    ensures
        ({
            let text = crate::text::decimal(n).push(unit);
            let read = crate::schedule::parsed_duration(text);
            &&& unit == 's' ==> read == Ok::<nat, KronErrorView>(n)
            &&& unit == 'm' ==> read == Ok::<nat, KronErrorView>(n * 60)
            &&& unit == 'h' ==> read == Ok::<nat, KronErrorView>(n * 60 * 60)
            &&& unit == 'd' ==> read == Ok::<nat, KronErrorView>(n * 24 * 60 * 60)
            &&& crate::schedule::parsed_duration(seq![' '] + text) == read
        }),
        !(unit == 's' || unit == 'm' || unit == 'h' || unit == 'd') && !crate::text::is_space(unit)
            ==> crate::schedule::parsed_duration(crate::text::decimal(n).push(unit)) is Err,
{
    let d = crate::text::decimal(n);
    let text = d.push(unit);
    crate::text::decimal_round_trip(n);
    let spaced = seq![' '] + text;
    assert(text[0] == d[0]);
    assert(spaced.skip(1) =~= text);
    assert(crate::text::trim_front(spaced) == crate::text::trim_front(text));
    if unit == 's' || unit == 'm' || unit == 'h' || unit == 'd' {
        crate::schedule::duration_of_number_and_unit(n, unit);
    } else if !crate::text::is_space(unit) {
        assert(crate::text::trimmed(text) == text);
    }
}

/// What is taken off the heap at an instant is what is due then: every entry whose time has
/// come, as often as it is there, and no other; the others stay.
pub proof fn heap_gives_what_is_due(
    contents: Multiset<ScheduledView>,
    now: TimeView,
    entry: ScheduledView,
    timer: Seq<char>,
)
    ensures
        ({
            let taken = contents.filter(crate::heap::due_by(now));
            let left = contents.filter(crate::heap::not_due_by(now));
            let others = contents.filter(crate::heap::of_others(timer));
            let at = entry.next_run_at;
            let due = at.secs < now.secs || (at.secs == now.secs && at.nanos <= now.nanos);
            &&& due ==> taken.count(entry) == contents.count(entry) && left.count(entry) == 0
            &&& !due ==> taken.count(entry) == 0 && left.count(entry) == contents.count(entry)
            &&& entry.timer_id == timer ==> others.count(entry) == 0
            &&& entry.timer_id != timer ==> others.count(entry) == contents.count(entry)
        }),
{
}

/// The nearest time is that of an entry of which none comes before: with one more entry it is the
/// earlier of the two, and there is none exactly if there is no entry.
pub proof fn nearest_time_is_the_earliest(
    contents: Multiset<ScheduledView>,
    at: Option<TimeView>,
    entry: ScheduledView,
)
    requires
        crate::heap::nearest(contents, at),
    ensures
        at is None <==> contents.len() == 0,
        contents.contains(entry) ==> at is Some && !entry.next_run_at.before(at->0),
        crate::heap::nearest(
            contents.insert(entry),
            Some(
                if at is Some && !entry.next_run_at.before(at->0) {
                    at->0
                } else {
                    entry.next_run_at
                },
            ),
        ),
{
    let more = contents.insert(entry);
    assert(more.contains(entry));
    if at is Some {
        let e = choose|e: ScheduledView| #[trigger]
            contents.contains(e) && e.next_run_at == at->0;
        assert(more.contains(e));
    }
    assert forall|e: ScheduledView| #[trigger] more.contains(e) implies e == entry
        || contents.contains(e) by {}
}

/// What is in order of time has no entry before an earlier one, wherever the two stand.
pub proof fn order_of_time_is_kept_throughout(entries: Seq<ScheduledView>, i: int, j: int)
    requires
        crate::heap::chronological(entries),
        0 <= i < j < entries.len(),
    ensures
        !entries[j].next_run_at.before(entries[i].next_run_at),
        entries.len() == 2 ==> crate::heap::chronological(entries.reverse())
            ==> entries[0].next_run_at == entries[1].next_run_at,
{
    if entries.len() == 2 && crate::heap::chronological(entries.reverse()) {
        let back = entries.reverse();
        assert(back[0] == entries[1] && back[1] == entries[0]);
        assert(back[0].next_run_at.not_after(back[1].next_run_at));
        assert(entries[0].next_run_at.not_after(entries[1].next_run_at));
    }
}

/// What is no duration is refused as a wrong expression, with its text: it is one exactly if it
/// ends with a unit, behind a number of 64 bits and nothing else.
pub proof fn other_texts_are_no_durations(s: Seq<char>)
    ensures
        ({
            let t = crate::text::trimmed(s);
            let read = crate::schedule::parsed_duration(s);
            let unit = t.len() > 0 && (t.last() == 's' || t.last() == 'm' || t.last() == 'h'
                || t.last() == 'd');
            let number = crate::text::parsed_number(t.drop_last(), u64::MAX as nat);
            &&& read is Ok <==> unit && number is Some
            &&& !unit ==> read == Err::<nat, _>(
                KronErrorView::InvalidCron("duration must end with s/m/h/d: "@ + t),
            )
            &&& unit && number is None ==> read == Err::<nat, _>(
                KronErrorView::InvalidCron("invalid duration: "@ + t),
            )
        }),
{
}

/// A schedule runs once exactly if it is for an instant or for after a delay; then it gives no
/// run after the one it has.
pub proof fn some_schedules_run_once(schedule: ScheduleView, after: TimeView, timezone: Seq<char>)
    ensures
        schedule.one_shot() <==> schedule is At || schedule is After,
        schedule is At && !after.before(schedule->at) ==> {
            let next = schedule.next(after, timezone);
            next is Ok ==> next->Ok_0 is None
        },
{
}

/// Before the first attempt a fixed and an exponential delay are those of the first one.
pub proof fn no_attempt_counts_as_the_first(seconds: u64, base_seconds: u64, max_seconds: u64)
    ensures
        ({
            let fixed = BackoffStrategy::Fixed { seconds };
            let exponential = BackoffStrategy::Exponential { base_seconds, max_seconds };
            &&& fixed.delay(0) == fixed.delay(1)
            &&& exponential.delay(0) == exponential.delay(1)
        }),
{
}

} // verus!
