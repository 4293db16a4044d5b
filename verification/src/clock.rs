//! Calendar days and instants, and the calls into `chrono` that read the
//! clock or parse dates.
use chrono::Datelike;
use vstd::prelude::*;

verus! {

/// A day of the proleptic Gregorian calendar, numbered as chrono's
/// `num_days_from_ce` numbers it: 0001-01-01 is day 1 and 1970-01-01 is
/// day 719163. Later days have larger numbers.
#[derive(Clone, Copy, Debug, PartialEq, Eq, Structural)]
pub struct CalendarDate {
    pub day_number: i64,
}

/// An instant, as chrono gives it for a `DateTime<Utc>`: whole seconds since
/// 1970-01-01T00:00:00Z (the Unix timestamp), and the nanoseconds past that
/// second; inside a leap second the nanoseconds are 10^9 or more.
#[derive(Clone, Copy, Debug, PartialEq, Eq, Structural)]
pub struct Timestamp {
    pub seconds: i64,
    pub nanos: u32,
}

/// The day number of 1970-01-01.
pub const UNIX_EPOCH_DAY: i64 = 719163;

/// Seconds in a day.
pub const SECONDS_PER_DAY: i64 = 86400;

/// Nanoseconds in a second.
pub const NANOS_PER_SECOND: i64 = 1_000_000_000;

impl Timestamp {
    /// The instant in nanoseconds since 1970-01-01T00:00:00Z.
    pub open spec fn total_nanos(self) -> int {
        self.seconds * NANOS_PER_SECOND + self.nanos
    }

    /// The UTC calendar day on which the instant falls.
    pub open spec fn spec_utc_date(self) -> CalendarDate {
        CalendarDate { day_number: (self.seconds / SECONDS_PER_DAY + UNIX_EPOCH_DAY) as i64 }
    }

    /// The UTC calendar day on which the instant falls
    /// (`DateTime<Utc>::date_naive`).
    pub fn utc_date(&self) -> (r: CalendarDate)
        ensures
            r == self.spec_utc_date(),
    {
        CalendarDate { day_number: days_since_epoch(self.seconds) + UNIX_EPOCH_DAY }
    }

    /// The second of its UTC day at which the instant falls.
    pub open spec fn spec_second_of_day(self) -> int {
        (self.seconds as int) % (SECONDS_PER_DAY as int)
    }
}

/// `s / 86400`, rounded down: the days from the epoch to the day holding
/// the second `s`.
fn days_since_epoch(s: i64) -> (q: i64)
    ensures
        q == s / SECONDS_PER_DAY,
{
    let q: i64 = if s >= 0 {
        s / SECONDS_PER_DAY
    } else {
        -((-(s + 1)) / SECONDS_PER_DAY) - 1
    };
    assert(q == s / SECONDS_PER_DAY) by {
        if s < 0 {
            let m = -(s + 1);
            assert(m >= 0);
            assert(m / 86400 * 86400 <= m < m / 86400 * 86400 + 86400);
            assert((-(m / 86400) - 1) * 86400 <= s < (-(m / 86400) - 1) * 86400 + 86400);
            vstd::arithmetic::div_mod::lemma_fundamental_div_mod_converse(
                s as int,
                86400,
                -(m / 86400) - 1,
                s - (-(m / 86400) - 1) * 86400,
            );
        }
    }
    q
}

/// The second of its UTC day at which the instant falls.
fn second_of_day(t: Timestamp) -> (r: i64)
    ensures
        r == t.spec_second_of_day(),
        0 <= r < SECONDS_PER_DAY,
{
    let q = days_since_epoch(t.seconds);
    proof {
        vstd::arithmetic::div_mod::lemma_fundamental_div_mod(t.seconds as int, 86400);
    }
    let r: i128 = t.seconds as i128 - q as i128 * 86400;
    r as i64
}

/// The one-second correction chrono makes when one of the two instants lies
/// in a leap second: a leap second of `earlier` counts when `later` is at a
/// later second of its day, and one of `later` is taken back when `later`
/// is at an earlier second of its day.
pub open spec fn leap_correction(earlier: Timestamp, later: Timestamp) -> int {
    if later.spec_second_of_day() > earlier.spec_second_of_day() && earlier.nanos
        >= NANOS_PER_SECOND {
        1
    } else if later.spec_second_of_day() < earlier.spec_second_of_day() && later.nanos
        >= NANOS_PER_SECOND {
        -1
    } else {
        0
    }
}

/// The nanoseconds from `earlier` to `later` (negative when `later` comes
/// first), as chrono's `later - earlier` measures them: the difference of
/// `seconds * 10^9 + nanos`, with chrono's leap-second correction.
pub open spec fn nanos_between(earlier: Timestamp, later: Timestamp) -> int {
    later.total_nanos() - earlier.total_nanos() + leap_correction(earlier, later)
        * NANOS_PER_SECOND
}

/// The nanoseconds from `earlier` to `later`, as chrono's
/// `DateTime::signed_duration_since` measures them.
pub fn elapsed_nanos(earlier: Timestamp, later: Timestamp) -> (r: i128)
    ensures
        r == nanos_between(earlier, later),
{
    let a = second_of_day(earlier);
    let b = second_of_day(later);
    let correction: i128 = if b > a && earlier.nanos >= 1_000_000_000 {
        1
    } else if b < a && later.nanos >= 1_000_000_000 {
        -1
    } else {
        0
    };
    (later.seconds as i128 - earlier.seconds as i128) * 1_000_000_000 + (later.nanos as i128
        - earlier.nanos as i128) + correction * 1_000_000_000
}

/// `chrono::Utc::now()`: the current instant, as its Unix timestamp and the
/// nanoseconds past that second. It is the system clock's value; the
/// contract claims only what chrono's source shows of every value it
/// returns: a time since the epoch, never inside a leap second.
#[verifier::external_body]
pub(crate) fn now_utc() -> (r: Timestamp)
    ensures
        r.seconds >= 0,
        r.nanos < NANOS_PER_SECOND,
{
    let now = chrono::Utc::now();
    Timestamp { seconds: now.timestamp(), nanos: now.timestamp_subsec_nanos() }
}

/// The current UTC calendar day: the UTC day on which the instant that the
/// clock gave falls.
pub fn today() -> (r: CalendarDate)
    ensures
        exists|now: Timestamp| r == #[trigger] now.spec_utc_date(),
{
    let now = now_utc();
    now.utc_date()
}

/// What `chrono::NaiveDate::parse_from_str(text, format)` gives, as the
/// day number of the parsed date (`num_days_from_ce`), or `None` where it
/// returns an error.
pub uninterp spec fn chrono_date_from_str(text: Seq<char>, format: Seq<char>) -> Option<i32>;

/// Calls `chrono::NaiveDate::parse_from_str(text, format)` and gives the
/// parsed date's `num_days_from_ce`, or `None` on a parse error. The
/// contract claims only that the result is a function of the two strings,
/// named `chrono_date_from_str`.
#[verifier::external_body]
pub(crate) fn naive_date_from_str(text: &str, format: &str) -> (r: Option<i32>)
    ensures
        r == chrono_date_from_str(text@, format@),
{
    chrono::NaiveDate::parse_from_str(text, format).ok().map(|d| d.num_days_from_ce())
}

/// What `chrono::DateTime::parse_from_rfc3339(text)` gives, as the parsed
/// instant's Unix timestamp and sub-second nanoseconds, or `None` where it
/// returns an error.
pub uninterp spec fn chrono_rfc3339_instant(text: Seq<char>) -> Option<(i64, u32)>;

/// Calls `chrono::DateTime::parse_from_rfc3339(text)` and gives the parsed
/// instant's `timestamp()` and `timestamp_subsec_nanos()`, or `None` on a
/// parse error. The contract claims only that the result is a function of
/// the text, named `chrono_rfc3339_instant`.
#[verifier::external_body]
pub(crate) fn rfc3339_instant(text: &str) -> (r: Option<(i64, u32)>)
    ensures
        r == chrono_rfc3339_instant(text@),
{
    chrono::DateTime::parse_from_rfc3339(text).ok().map(
        |t| (t.timestamp(), t.timestamp_subsec_nanos()),
    )
}

} // verus!
