//! Points in time as plain integers, and the two timestamp dialects of the feed.

use vstd::prelude::*;
use vstd::string::*;

verus! {

/// A point in time with the offset of the zone it was written in.
///
/// `secs` counts the seconds since 1970-01-01 00:00:00 UTC, `nanos` the
/// nanoseconds into that second (above 999,999,999 inside a leap second), and
/// `offset` the seconds that the local wall clock is ahead of UTC.
#[derive(Clone, Copy, PartialEq, Eq, Debug, Structural)]
pub struct Instant {
    pub secs: i64,
    pub nanos: u32,
    pub offset: i32,
}

/// Seconds in a calendar day.
pub const SECONDS_PER_DAY: i64 = 86_400;

impl Instant {
    /// The local wall clock, in seconds since the epoch.
    pub open spec fn local_secs(self) -> int {
        self.secs + self.offset
    }

    /// Whether the instant lies strictly after second `secs`, nanosecond `nanos`.
    pub open spec fn is_after(self, secs: int, nanos: int) -> bool {
        self.secs > secs || (self.secs == secs && self.nanos > nanos)
    }

    /// Whether both show the same date and time on their local wall clocks.
    pub open spec fn same_wall_clock(self, other: Instant) -> bool {
        self.local_secs() == other.local_secs() && self.nanos == other.nanos
    }

    /// Whether the instant is later than `days` whole days before `now`.
    pub fn later_than_days_before(&self, now: &Instant, days: u8) -> (r: bool)
        ensures
            r == self.is_after(now.secs - SECONDS_PER_DAY * days, now.nanos as int),
    {
        let span: i128 = (SECONDS_PER_DAY as i128) * (days as i128);
        assert(0 <= span <= 86_400 * 255) by (nonlinear_arith)
            requires
                span == 86_400 * (days as int),
                0 <= days <= 255,
        ;
        let cutoff: i128 = now.secs as i128 - span;
        let secs: i128 = self.secs as i128;
        secs > cutoff || (secs == cutoff && self.nanos > now.nanos)
    }

    /// Compares the local wall clocks of two instants.
    pub fn wall_clock_eq(&self, other: &Instant) -> (r: bool)
        ensures
            r == self.same_wall_clock(*other),
    {
        let a: i128 = self.secs as i128 + self.offset as i128;
        let b: i128 = other.secs as i128 + other.offset as i128;
        a == b && self.nanos == other.nanos
    }
}

/// What `chrono` reads out of `text` under the format `format`: seconds since
/// the epoch, nanoseconds and zone offset of the date and time, or `None`
/// where it refuses the text.
pub uninterp spec fn parsed_datetime(text: Seq<char>, format: Seq<char>) -> Option<(i64, u32, i32)>;

/// `chrono::ParseError`, the reason for which `chrono` refuses a text. It is
/// carried through and not looked into.
#[verifier::external_type_specification]
#[verifier::external_body]
pub struct ExChronoParseError(chrono::ParseError);

/// Calls `chrono::DateTime::parse_from_str` and takes seconds, nanoseconds
/// and offset out of the date it returns. The contract only gives that
/// outcome its name, [`parsed_datetime`]: which texts a format accepts and
/// which date they denote is left to `chrono`.
#[verifier::external_body]
fn parse_datetime(text: &str, format: &str) -> (r: Result<Instant, chrono::ParseError>)
    ensures
        match r {
            Ok(t) => parsed_datetime(text@, format@) == Some((t.secs, t.nanos, t.offset)),
            Err(_) => parsed_datetime(text@, format@) is None,
        },
{
    match chrono::DateTime::parse_from_str(text, format) {
        Ok(t) => Ok(Instant {
            secs: t.timestamp(),
            nanos: t.timestamp_subsec_nanos(),
            offset: t.offset().local_minus_utc(),
        }),
        Err(e) => Err(e),
    }
}

/// A timestamp that does not follow its dialect.
#[derive(Clone, Copy, PartialEq, Eq, Debug, Structural)]
pub struct TimestampFormat;

/// The instant that a parsed date stands for.
pub open spec fn instant_of(parsed: Option<(i64, u32, i32)>) -> Result<Instant, TimestampFormat> {
    match parsed {
        Some((secs, nanos, offset)) => Ok(Instant { secs, nanos, offset }),
        None => Err(TimestampFormat),
    }
}

/// Width of the issue-time field of a bulletin body, in characters. The feed
/// lays the field out in this fixed width.
pub const ISSUE_TIME_WIDTH: usize = 20;

/// Width of the zone token that ends the issue-time field.
pub const ZONE_TOKEN_WIDTH: usize = 3;

/// The text that is parsed for an envelope timestamp: the field with a zero
/// offset behind it.
pub open spec fn envelope_text(field: Seq<char>) -> Seq<char> {
    field + "+0000"@
}

/// The format under which an envelope timestamp is parsed.
pub open spec fn envelope_format() -> Seq<char> {
    "%Y-%m-%d %H:%M:%S%.3f %z"@
}

/// The text that is parsed for an in-body issue time: the field without its
/// zone token, then a zero offset, zero seconds and zero milliseconds.
pub open spec fn issue_time_text(field: Seq<char>) -> Seq<char> {
    field.subrange(0, ISSUE_TIME_WIDTH - ZONE_TOKEN_WIDTH) + "+0000 00.000"@
}

/// The format under which an in-body issue time is parsed.
pub open spec fn issue_time_format() -> Seq<char> {
    "%Y %b %d %H%M %z %S%.3f"@
}

/// What normalizing an envelope timestamp gives.
pub open spec fn envelope_instant(field: Seq<char>) -> Result<Instant, TimestampFormat> {
    instant_of(parsed_datetime(envelope_text(field), envelope_format()))
}

/// What normalizing an in-body issue time gives.
pub open spec fn issue_time_instant(field: Seq<char>) -> Result<Instant, TimestampFormat> {
    if field.len() != ISSUE_TIME_WIDTH {
        Err(TimestampFormat)
    } else {
        instant_of(parsed_datetime(issue_time_text(field), issue_time_format()))
    }
}

/// An envelope timestamp with a zero offset behind it.
pub fn envelope_with_offset(field: &str) -> (text: String)
    ensures
        text@ == envelope_text(field@),
{
    String::from_str(field).concat("+0000")
}

/// An in-body issue time with a zero offset, zero seconds and zero
/// milliseconds in place of its zone token, or `None` where the field is not
/// [`ISSUE_TIME_WIDTH`] characters wide.
pub fn issue_time_with_offset(field: &str) -> (text: Option<String>)
    ensures
        text is Some <==> field@.len() == ISSUE_TIME_WIDTH,
        text matches Some(t) ==> t@ == issue_time_text(field@),
{
    if field.unicode_len() != ISSUE_TIME_WIDTH {
        return None;
    }
    let head = field.substring_char(0, ISSUE_TIME_WIDTH - ZONE_TOKEN_WIDTH);
    Some(String::from_str(head).concat("+0000 00.000"))
}

/// Normalizes an envelope timestamp, written as `YYYY-MM-DD HH:MM:SS.mmm` and
/// taken as UTC.
pub fn parse_envelope_time(field: &str) -> (r: Result<Instant, TimestampFormat>)
    ensures
        r == envelope_instant(field@),
{
    let text = envelope_with_offset(field);
    match parse_datetime(text.as_str(), "%Y-%m-%d %H:%M:%S%.3f %z") {
        Ok(t) => Ok(t),
        Err(_) => Err(TimestampFormat),
    }
}

/// Normalizes an in-body issue time, written as `YYYY Mon DD HHMM TZ` in
/// exactly [`ISSUE_TIME_WIDTH`] characters. The zone token is dropped and the
/// time is taken as UTC.
pub fn parse_issue_time(field: &str) -> (r: Result<Instant, TimestampFormat>)
    ensures
        r == issue_time_instant(field@),
{
    let text = match issue_time_with_offset(field) {
        Some(text) => text,
        None => { return Err(TimestampFormat); },
    };
    match parse_datetime(text.as_str(), "%Y %b %d %H%M %z %S%.3f") {
        Ok(t) => Ok(t),
        Err(_) => Err(TimestampFormat),
    }
}

} // verus!
