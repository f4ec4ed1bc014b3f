//! Points in time and the text forms that they are stored in.
use vstd::prelude::*;

use crate::json::bare_from;
use crate::text::{parse_int, parsed_int, replace_char, replaced, trim, trimmed};
use crate::value::{bare_text, Json, JsonView};

verus! {

/// A point in time: seconds since the epoch, and nanoseconds on top of them. A leap second has more
/// than a second of nanoseconds on top of the second that it follows.
#[derive(Clone, Copy)]
pub struct Moment {
    pub secs: i64,
    pub nanos: u32,
}

impl View for Moment {
    type V = Moment;

    open spec fn view(&self) -> Moment {
        *self
    }
}

impl Moment {
    /// Nanoseconds since the epoch.
    pub open spec fn total(self) -> int {
        self.secs * 1_000_000_000 + self.nanos
    }

    /// Computes [`Moment::total`].
    pub fn in_nanos(self) -> (r: i128)
        ensures
            r == self.total(),
            -0x7fff_ffff_ffff_ffff_ffff_ffff < r < 0x7fff_ffff_ffff_ffff_ffff_ffff,
    {
        self.secs as i128 * 1_000_000_000 + self.nanos as i128
    }

    /// Whether this is a leap second.
    pub open spec fn is_leap(self) -> bool {
        self.nanos >= 1_000_000_000
    }

    /// The second of the day, in UTC.
    pub open spec fn second_of_day(self) -> int {
        self.secs as int % 86_400
    }

    /// How many nanoseconds `self` is after `earlier`. A leap second is counted where the other
    /// moment is later on the clock.
    pub open spec fn since(self, earlier: Moment) -> int {
        self.total() - earlier.total() + (if self.second_of_day() > earlier.second_of_day()
            && earlier.is_leap() {
            1_000_000_000int
        } else if self.second_of_day() < earlier.second_of_day() && self.is_leap() {
            -1_000_000_000
        } else {
            0
        })
    }

    fn clock_second(self) -> (r: i64)
        ensures
            r == self.second_of_day(),
    {
        match self.secs.checked_rem_euclid(86_400) {
            Some(r) => r,
            None => 0,
        }
    }

    fn nanos_since(self, earlier: Moment) -> (r: i128)
        ensures
            r == self.since(earlier),
    {
        let plain: i128 = self.in_nanos() - earlier.in_nanos();
        let a = self.clock_second();
        let b = earlier.clock_second();
        if a > b && earlier.nanos >= 1_000_000_000 {
            plain + 1_000_000_000
        } else if a < b && self.nanos >= 1_000_000_000 {
            plain - 1_000_000_000
        } else {
            plain
        }
    }

    /// Whether `self` is less than `secs` seconds after `earlier`.
    pub open spec fn within(self, earlier: Moment, secs: int) -> bool {
        self.since(earlier) < secs * 1_000_000_000
    }

    /// Decides [`Moment::within`].
    pub fn is_within(self, earlier: Moment, secs: i64) -> (r: bool)
        ensures
            r == self.within(earlier, secs as int),
    {
        self.nanos_since(earlier) < secs as i128 * 1_000_000_000
    }

    /// Whether `self` is less than `minutes` minutes after `earlier`.
    pub fn is_within_minutes(self, earlier: Moment, minutes: i64) -> (r: bool)
        ensures
            r == self.within(earlier, 60 * minutes),
    {
        self.nanos_since(earlier) < minutes as i128 * 60_000_000_000
    }

    /// Whether `self` stands before `other` or at the same point.
    pub open spec fn not_after(self, other: Moment) -> bool {
        self.secs < other.secs || (self.secs == other.secs && self.nanos <= other.nanos)
    }

    /// Decides [`Moment::not_after`].
    pub fn is_not_after(self, other: Moment) -> (r: bool)
        ensures
            r == self.not_after(other),
    {
        self.secs < other.secs || (self.secs == other.secs && self.nanos <= other.nanos)
    }
}

/// The moment that an RFC 3339 date and time stands for.
pub uninterp spec fn rfc3339_moment(s: Seq<char>) -> Option<Moment>;

/// Calls `chrono::DateTime::parse_from_rfc3339` and takes the timestamp of its result. Claims
/// that the outcome depends on the text alone.
#[verifier::external_body]
pub(crate) fn read_moment(s: &str) -> (r: Option<Moment>)
    ensures
        r == rfc3339_moment(s@),
{
    chrono::DateTime::parse_from_rfc3339(s).ok().map(
        |d| Moment { secs: d.timestamp(), nanos: d.timestamp_subsec_nanos() },
    )
}

/// The moment, in UTC, that a date and time in a format stands for.
pub uninterp spec fn naive_moment(s: Seq<char>, format: Seq<char>) -> Option<Moment>;

/// Calls `chrono::NaiveDateTime::parse_from_str` and takes the timestamp of its result as UTC.
/// Claims that the outcome depends on the text and the format alone.
#[verifier::external_body]
pub(crate) fn read_naive(s: &str, format: &str) -> (r: Option<Moment>)
    ensures
        r == naive_moment(s@, format@),
{
    chrono::NaiveDateTime::parse_from_str(s, format).ok().map(
        |d| Moment { secs: d.and_utc().timestamp(), nanos: d.and_utc().timestamp_subsec_nanos() },
    )
}

/// The moment, in UTC, that a plain date and time stands for.
pub open spec fn plain_moment(s: Seq<char>) -> Option<Moment> {
    naive_moment(s, "%Y-%m-%d %H:%M:%S"@)
}

/// Calls `chrono::TimeZone::from_local_datetime` on the machine's time zone, and takes the second
/// where there is a single one. It depends on that zone, and nothing is claimed of it.
#[verifier::external_body]
pub(crate) fn local_second(plain: Moment) -> (r: Option<i64>) {
    let d = chrono::DateTime::from_timestamp(plain.secs, plain.nanos)?.naive_utc();
    chrono::TimeZone::from_local_datetime(&chrono::Local, &d).single().map(|t| t.timestamp())
}

/// Whether the calendar reaches the second `secs` since the epoch.
pub uninterp spec fn on_calendar(secs: i64) -> bool;

/// Calls `chrono::DateTime::from_timestamp` with no nanoseconds. Claims that it gives the
/// second asked for, or nothing where that second is out of the calendar's range.
#[verifier::external_body]
pub(crate) fn calendar_second(secs: i64) -> (r: Option<Moment>)
    ensures
        r == (if on_calendar(secs) {
            Some(Moment { secs, nanos: 0 })
        } else {
            None
        }),
{
    chrono::DateTime::from_timestamp(secs, 0).map(
        |d| Moment { secs: d.timestamp(), nanos: d.timestamp_subsec_nanos() },
    )
}

/// A second since the epoch in RFC 3339 form, eight hours east of UTC, where it is on the
/// calendar.
pub uninterp spec fn east8_text(secs: i64) -> Option<Seq<char>>;

/// Calls `chrono::DateTime::from_timestamp`, moves the result eight hours east, and writes it
/// with `to_rfc3339`. Claims that the outcome depends on the second alone.
#[verifier::external_body]
fn write_east8(secs: i64) -> (r: Option<String>)
    ensures
        match r {
            Some(s) => east8_text(secs) == Some(s@),
            None => east8_text(secs) is None,
        },
{
    let east = chrono::FixedOffset::east_opt(28_800)?;
    chrono::DateTime::from_timestamp(secs, 0).map(|d| d.with_timezone(&east).to_rfc3339())
}

/// The moment that a value gives: RFC 3339 with `Z` read as `+00:00`, or a plain date and
/// time in UTC.
pub open spec fn moment_of(v: JsonView) -> Option<Moment> {
    let raw = bare_text(v);
    if raw.len() == 0 {
        None
    } else {
        match rfc3339_moment(replaced(raw, 'Z', "+00:00"@)) {
            Some(m) => Some(m),
            None => plain_moment(raw),
        }
    }
}

/// Reads the moment that a value gives.
pub fn parse_time(value: &Json) -> (r: Option<Moment>)
    ensures
        r == moment_of(value@),
{
    let raw = bare_from(value);
    if raw.as_str().is_empty() {
        return None;
    }
    match read_moment(replace_char(raw.as_str(), 'Z', "+00:00").as_str()) {
        Some(m) => Some(m),
        None => read_naive(raw.as_str(), "%Y-%m-%d %H:%M:%S"),
    }
}

/// The moment in the field `k` of an account or another record.
pub open spec fn moment_at(v: JsonView, k: Seq<char>) -> Option<Moment> {
    moment_of(v.at(k))
}

/// Reads the moment in the field `k`.
pub fn time_at(value: &Json, k: &str) -> (r: Option<Moment>)
    ensures
        r == moment_at(value@, k@),
{
    parse_time(&value.at(k))
}

/// The second that a number, or the decimal text of one, gives.
pub open spec fn second_of(v: JsonView) -> Option<i64> {
    match v {
        JsonView::Num(n) => n.int,
        JsonView::Str(s) => match parsed_int(trimmed(s)) {
            Some(i) => Some(i as i64),
            None => None,
        },
        _ => None,
    }
}

/// The text form of a second since the epoch; empty where there is none.
pub open spec fn iso_of(v: JsonView) -> Seq<char> {
    match second_of(v) {
        Some(ts) => match east8_text(ts) {
            Some(s) => s,
            None => Seq::empty(),
        },
        None => Seq::empty(),
    }
}

/// Writes a second since the epoch in RFC 3339 form, eight hours east of UTC.
pub fn timestamp_to_iso(value: &Json) -> (r: String)
    ensures
        r@ == iso_of(value@),
{
    let ts = match value {
        Json::Num(n) => n.int,
        Json::Str(s) => parse_int(trim(s.as_str()).as_str()),
        _ => None,
    };
    match ts {
        Some(ts) => match write_east8(ts) {
            Some(s) => s,
            None => String::new(),
        },
        None => String::new(),
    }
}

} // verus!
