//! Instants of UTC time with nanosecond precision.

use vstd::prelude::*;

use crate::strmap::Duplicate;

verus! {

/// The first second that can be represented: the start of the year -262143.
pub const MIN_SECS: i64 = -8334601228800;

/// The last second that can be represented: the end of the year 262142.
pub const MAX_SECS: i64 = 8210266876799;

/// Nanoseconds in a second.
pub const NANOS_PER_SEC: u32 = 1_000_000_000;

/// An instant as seconds since the Unix epoch and nanoseconds within that second. A
/// leap second is the continuation of the last second of a minute: its nanoseconds run
/// from one billion.
pub struct TimeView {
    pub secs: int,
    pub nanos: int,
}

impl TimeView {
    /// Whether the instant can be represented.
    pub open spec fn valid(self) -> bool {
        &&& MIN_SECS <= self.secs <= MAX_SECS
        &&& 0 <= self.nanos < 2 * NANOS_PER_SEC
        &&& self.nanos >= NANOS_PER_SEC ==> self.secs % 60 == 59
    }

    /// Whether the instant comes before another.
    pub open spec fn before(self, other: TimeView) -> bool {
        self.secs < other.secs || (self.secs == other.secs && self.nanos < other.nanos)
    }

    /// Whether the instant comes before another or is the same.
    pub open spec fn not_after(self, other: TimeView) -> bool {
        !other.before(self)
    }

    /// The instant a number of seconds later, or earlier for a negative number. A step
    /// out of a leap second lands in an ordinary one.
    pub open spec fn plus(self, seconds: int) -> TimeView {
        if seconds == 0 {
            self
        } else if self.nanos < NANOS_PER_SEC {
            TimeView { secs: self.secs + seconds, nanos: self.nanos }
        } else if seconds > 0 {
            TimeView { secs: self.secs + seconds, nanos: self.nanos - NANOS_PER_SEC }
        } else {
            TimeView { secs: self.secs + seconds + 1, nanos: self.nanos - NANOS_PER_SEC }
        }
    }

    /// Whether the instant a number of seconds later can be represented.
    pub open spec fn can_add(self, seconds: int) -> bool {
        MIN_SECS <= self.plus(seconds).secs <= MAX_SECS
    }

    /// The nanoseconds that passed since an earlier instant. A leap second counts when
    /// the times of day stand in the order that it separates.
    pub open spec fn nanos_since(self, earlier: TimeView) -> int {
        let leap: int = if self.secs % 86400 > earlier.secs % 86400 && earlier.nanos
            >= NANOS_PER_SEC {
            1
        } else if self.secs % 86400 < earlier.secs % 86400 && self.nanos >= NANOS_PER_SEC {
            -1
        } else {
            0
        };
        (self.secs - earlier.secs + leap) * NANOS_PER_SEC + self.nanos - earlier.nanos
    }

    /// The whole milliseconds since an earlier instant, zero if it is not earlier.
    pub open spec fn millis_since(self, earlier: TimeView) -> nat {
        let n = self.nanos_since(earlier);
        if n <= 0 {
            0
        } else {
            (n / 1_000_000) as nat
        }
    }
}

/// A valid instant.
#[derive(Clone, Copy, Debug, PartialEq, Eq)]
pub struct Timestamp {
    secs: i64,
    nanos: u32,
}

impl View for Timestamp {
    type V = TimeView;

    closed spec fn view(&self) -> TimeView {
        TimeView { secs: self.secs as int, nanos: self.nanos as int }
    }
}

impl DeepView for Timestamp {
    type V = TimeView;

    open spec fn deep_view(&self) -> TimeView {
        self@
    }
}

impl Duplicate for Timestamp {
    fn duplicate(&self) -> (r: Self) {
        *self
    }
}

impl Timestamp {
    #[verifier::type_invariant]
    spec fn representable(self) -> bool {
        self@.valid()
    }

    /// The instant with the given seconds and nanoseconds, if there is one.
    pub fn new(secs: i64, nanos: u32) -> (r: Option<Timestamp>)
        ensures
            match r {
                Some(t) => t@ == (TimeView { secs: secs as int, nanos: nanos as int }) && t@.valid(),
                None => !(TimeView { secs: secs as int, nanos: nanos as int }).valid(),
            },
    {
        if secs < MIN_SECS || secs > MAX_SECS || nanos >= 2 * NANOS_PER_SEC {
            return None;
        }
        if nanos >= NANOS_PER_SEC {
            let in_minute: i64 = (secs - MIN_SECS) % 60;
            assert(MIN_SECS % 60 == 0);
            assert((secs - MIN_SECS) % 60 == secs as int % 60);
            if in_minute != 59 {
                return None;
            }
        }
        Some(Timestamp { secs, nanos })
    }

    /// The seconds since the Unix epoch.
    pub fn secs(&self) -> (r: i64)
        ensures
            r == self@.secs,
            self@.valid(),
    {
        proof {
            use_type_invariant(self);
        }
        self.secs
    }

    /// The nanoseconds within the second.
    pub fn nanos(&self) -> (r: u32)
        ensures
            r == self@.nanos,
            self@.valid(),
    {
        proof {
            use_type_invariant(self);
        }
        self.nanos
    }

    /// Whether this instant comes before another.
    pub fn before(&self, other: &Timestamp) -> (r: bool)
        ensures
            r == self@.before(other@),
    {
        self.secs < other.secs || (self.secs == other.secs && self.nanos < other.nanos)
    }

    /// Whether this instant comes before another or is the same.
    pub fn not_after(&self, other: &Timestamp) -> (r: bool)
        ensures
            r == self@.not_after(other@),
    {
        !other.before(self)
    }

    /// Whether two instants are the same.
    pub fn same(&self, other: &Timestamp) -> (r: bool)
        ensures
            r == (self@ == other@),
    {
        self.secs == other.secs && self.nanos == other.nanos
    }

    /// The instant an unsigned number of seconds later, if it can be represented.
    pub fn plus_seconds(&self, seconds: u64) -> (r: Option<Timestamp>)
        ensures
            match r {
                Some(t) => self@.can_add(seconds as int) && t@ == self@.plus(seconds as int),
                None => !self@.can_add(seconds as int),
            },
    {
        proof {
            use_type_invariant(self);
        }
        if seconds > i64::MAX as u64 {
            return None;
        }
        self.plus(seconds as i64)
    }

    /// The instant a number of seconds later, if it can be represented.
    pub fn plus(&self, seconds: i64) -> (r: Option<Timestamp>)
        ensures
            match r {
                Some(t) => self@.can_add(seconds as int) && t@ == self@.plus(seconds as int),
                None => !self@.can_add(seconds as int),
            },
    {
        proof {
            use_type_invariant(self);
        }
        if seconds == 0 {
            return Some(*self);
        }
        let leap = self.nanos >= NANOS_PER_SEC;
        let base: i64 = if leap && seconds < 0 {
            self.secs + 1
        } else {
            self.secs
        };
        let nanos: u32 = if leap {
            self.nanos - NANOS_PER_SEC
        } else {
            self.nanos
        };
        match base.checked_add(seconds) {
            Some(secs) => {
                if secs < MIN_SECS || secs > MAX_SECS {
                    None
                } else {
                    Some(Timestamp { secs, nanos })
                }
            },
            None => None,
        }
    }

    /// The nanoseconds that passed since another instant.
    pub fn nanos_since(&self, earlier: &Timestamp) -> (r: i128)
        ensures
            r == self@.nanos_since(earlier@),
    {
        proof {
            use_type_invariant(self);
            use_type_invariant(earlier);
        }
        let x: i64 = (self.secs - MIN_SECS) % 86400;
        let y: i64 = (earlier.secs - MIN_SECS) % 86400;
        assert(MIN_SECS % 86400 == 0);
        assert(x == self.secs as int % 86400);
        assert(y == earlier.secs as int % 86400);
        let leap: i64 = if x > y && earlier.nanos >= NANOS_PER_SEC {
            1
        } else if x < y && self.nanos >= NANOS_PER_SEC {
            -1
        } else {
            0
        };
        let secs: i64 = self.secs - earlier.secs + leap;
        (secs as i128) * 1_000_000_000 + (self.nanos as i128) - (earlier.nanos as i128)
    }

    /// The whole milliseconds since another instant, zero if it is not earlier.
    pub fn millis_since(&self, earlier: &Timestamp) -> (r: u64)
        ensures
            r == self@.millis_since(earlier@),
    {
        proof {
            use_type_invariant(self);
            use_type_invariant(earlier);
        }
        let n: i128 = self.nanos_since(earlier);
        if n <= 0 {
            0
        } else {
            let ms: i128 = n / 1_000_000;
            ms as u64
        }
    }
}

/// The time of day: `chrono::Utc::now`, which is made from the seconds and the nanoseconds
/// since the Unix epoch. So it is an instant of the calendar that does not come before the
/// epoch and is no leap second. Which one it is, is up to the clock of the system.
#[verifier::external_body]
pub(crate) fn utc_now() -> (r: Timestamp)
    ensures
        r@.valid(),
        0 <= r@.secs,
        r@.nanos < NANOS_PER_SEC,
{
    let now = chrono::Utc::now();
    Timestamp { secs: now.timestamp(), nanos: now.timestamp_subsec_nanos() }
}

/// The RFC 3339 text of the instant with the given seconds and nanoseconds, in UTC.
pub uninterp spec fn rfc3339_text(secs: int, nanos: int) -> Seq<char>;

/// The instant, as seconds and nanoseconds, that an RFC 3339 text denotes, or the reason
/// why it denotes none.
pub uninterp spec fn rfc3339_instant(text: Seq<char>) -> Result<(int, int), Seq<char>>;

/// The day, counted from the Unix epoch, that a text of the form `%Y-%m-%d` denotes, or
/// the reason why it denotes none.
pub uninterp spec fn calendar_day(text: Seq<char>) -> Result<int, Seq<char>>;

/// The text of the instant with the given seconds and nanoseconds, in UTC, in the format of
/// a pattern.
pub uninterp spec fn formatted_time(secs: int, nanos: int, pattern: Seq<char>) -> Seq<char>;

/// `chrono::DateTime::format`: the text of an instant in the format of a pattern, which
/// depends on both alone. Two patterns are in use, both of which are well formed.
#[verifier::external_body]
pub(crate) fn format_time(t: Timestamp, pattern: &str) -> (r: String)
    requires
        pattern@ == "%Y-%m-%d %H:%M UTC"@ || pattern@ == "%Y-%m-%d %H:%M:%S UTC"@,
    ensures
        r@ == formatted_time(t@.secs, t@.nanos, pattern@),
{
    chrono::DateTime::from_timestamp(t.secs, t.nanos).unwrap().format(pattern).to_string()
}

/// `chrono::DateTime::to_rfc3339`: the text of an instant, which depends on the instant
/// alone.
#[verifier::external_body]
pub(crate) fn to_rfc3339(t: Timestamp) -> (r: String)
    ensures
        r@ == rfc3339_text(t@.secs, t@.nanos),
{
    chrono::DateTime::from_timestamp(t.secs, t.nanos).unwrap().to_rfc3339()
}

/// `chrono::DateTime::parse_from_rfc3339`: the instant that a text denotes, or the
/// message of the error; it depends on the text alone.
#[verifier::external_body]
pub(crate) fn parse_rfc3339(text: &str) -> (r: Result<Timestamp, String>)
    ensures
        match r {
            Ok(t) => rfc3339_instant(text@) == Ok::<_, Seq<char>>((t@.secs, t@.nanos)),
            Err(message) => rfc3339_instant(text@) == Err::<(int, int), _>(message@),
        },
{
    match chrono::DateTime::parse_from_rfc3339(text) {
        Ok(t) => Ok(Timestamp { secs: t.timestamp(), nanos: t.timestamp_subsec_nanos() }),
        Err(error) => Err(error.to_string()),
    }
}

/// `chrono::NaiveDate::parse_from_str` with the format `%Y-%m-%d`: the day that a text
/// denotes, counted from the Unix epoch, or the message of the error; it depends on the
/// text alone. The seconds of every such day can be represented.
#[verifier::external_body]
pub(crate) fn parse_calendar_day(text: &str) -> (r: Result<i64, String>)
    ensures
        match r {
            Ok(day) => calendar_day(text@) == Ok::<_, Seq<char>>(day as int) && MIN_SECS <= day
                * 86400 && day * 86400 + 86399 <= MAX_SECS,
            Err(message) => calendar_day(text@) == Err::<int, _>(message@),
        },
{
    match chrono::NaiveDate::parse_from_str(text, "%Y-%m-%d") {
        Ok(date) => Ok(date.signed_duration_since(chrono::NaiveDate::default()).num_days()),
        Err(error) => Err(error.to_string()),
    }
}

} // verus!
