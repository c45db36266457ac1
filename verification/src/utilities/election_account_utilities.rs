use crate::error::ElectionError;
use std::fmt::Write;
use vstd::prelude::*;

verus! {

/// A point in time without a time zone: the seconds since the start of
/// 1970, not counting leap seconds, and the nanoseconds since the last full
/// second. Within a leap second `nanos` is a thousand million or more.
#[derive(Clone, Copy, Debug, PartialEq, Eq, Structural)]
pub struct Timestamp {
    pub seconds: i64,
    pub nanos: u32,
}

/// How many seconds before its start an election may be announced.
pub const ANNOUNCEMENT_MARGIN_SECONDS: i64 = 1200;

impl Timestamp {
    /// Whether `self` is earlier than `other`.
    pub open spec fn precedes(self, other: Timestamp) -> bool {
        self.seconds < other.seconds || (self.seconds == other.seconds && self.nanos < other.nanos)
    }

    /// Whether the time twenty minutes after `self` is earlier than
    /// `other`. A time within a leap second counts on from the full second.
    pub open spec fn margin_precedes(self, other: Timestamp) -> bool {
        let seconds = self.seconds + ANNOUNCEMENT_MARGIN_SECONDS;
        let nanos = if self.nanos >= 1_000_000_000 {
            self.nanos - 1_000_000_000
        } else {
            self.nanos as int
        };
        seconds < other.seconds || (seconds == other.seconds && nanos < other.nanos)
    }

    /// Whether `self` is earlier than `other`.
    pub fn is_before(&self, other: &Timestamp) -> (r: bool)
        ensures
            r == self.precedes(*other),
    {
        self.seconds < other.seconds || (self.seconds == other.seconds && self.nanos < other.nanos)
    }

    /// Whether the time twenty minutes after `self` is earlier than `other`.
    pub fn is_margin_before(&self, other: &Timestamp) -> (r: bool)
        ensures
            r == self.margin_precedes(*other),
    {
        let nanos: u32 = if self.nanos >= 1_000_000_000 {
            self.nanos - 1_000_000_000
        } else {
            self.nanos
        };
        match self.seconds.checked_add(ANNOUNCEMENT_MARGIN_SECONDS) {
            Some(seconds) => seconds < other.seconds || (seconds == other.seconds && nanos
                < other.nanos),
            None => false,
        }
    }
}

/// Whether an election with these dates can be announced at `now`: it
/// starts no later than twenty minutes from now, and it ends after it
/// starts.
pub open spec fn dates_accepted(now: Timestamp, start_date: Timestamp, end_date: Timestamp) -> bool {
    !now.margin_precedes(start_date) && start_date.precedes(end_date)
}

/// Whether the election is open at `now`: it has started and not ended.
pub open spec fn election_open(now: Timestamp, start_date: Timestamp, end_date: Timestamp) -> bool {
    !now.precedes(start_date) && now.precedes(end_date)
}

/// Whether candidates can still be registered at `now`: the election has
/// not started.
pub open spec fn registration_open(now: Timestamp, start_date: Timestamp) -> bool {
    now.precedes(start_date)
}

/// Checks the dates of an election that is announced at `now`.
pub fn check_dates(now: Timestamp, start_date: Timestamp, end_date: Timestamp) -> (r: Result<
    (),
    ElectionError,
>)
    ensures
        r == if dates_accepted(now, start_date, end_date) {
            Ok::<(), ElectionError>(())
        } else {
            Err(ElectionError::MalformedInstruction)
        },
{
    if !now.is_margin_before(&start_date) && start_date.is_before(&end_date) {
        Ok(())
    } else {
        Err(ElectionError::MalformedInstruction)
    }
}

/// Checks that a vote cast at `now` falls between the start of the election
/// and its end: the start belongs to the election, the end does not.
pub fn check_time_election(now: Timestamp, start_date: Timestamp, end_date: Timestamp) -> (r:
    Result<(), ElectionError>)
    ensures
        r == if election_open(now, start_date, end_date) {
            Ok::<(), ElectionError>(())
        } else {
            Err(ElectionError::MalformedInstruction)
        },
{
    if !now.is_before(&start_date) && now.is_before(&end_date) {
        Ok(())
    } else {
        Err(ElectionError::MalformedInstruction)
    }
}

/// Checks that a candidate registered at `now` comes before the start of
/// the election. The end of the election plays no part.
pub fn check_time_registration(now: Timestamp, start_date: Timestamp, end_date: Timestamp) -> (r:
    Result<(), ElectionError>)
    ensures
        r == if registration_open(now, start_date) {
            Ok::<(), ElectionError>(())
        } else {
            Err(ElectionError::MalformedInstruction)
        },
{
    if now.is_before(&start_date) {
        Ok(())
    } else {
        Err(ElectionError::MalformedInstruction)
    }
}

/// What `NaiveDateTime::parse_from_str` reads from `text` under `format`:
/// the seconds and nanoseconds of the time, or nothing where it reports an
/// error.
pub uninterp spec fn datetime_parsed(text: Seq<char>, format: Seq<char>) -> Option<(i64, u32)>;

/// What a `NaiveDateTime` looks like when it is written under `format`, or
/// nothing where the time is out of range or the format is refused.
pub uninterp spec fn datetime_formatted(seconds: i64, nanos: u32, format: Seq<char>) -> Option<
    Seq<char>,
>;

/// Calls `chrono::NaiveDateTime::parse_from_str`. Trusted: whether a time
/// is read, and which, depends on the text and the format alone.
#[verifier::external_body]
fn parse_naive_datetime(text: &str, format: &str) -> (r: Option<Timestamp>)
    ensures
        match r {
            Some(time) => datetime_parsed(text@, format@) == Some((time.seconds, time.nanos)),
            None => datetime_parsed(text@, format@) is None,
        },
{
    match chrono::NaiveDateTime::parse_from_str(text, format) {
        Ok(time) => Some(
            Timestamp {
                seconds: time.and_utc().timestamp(),
                nanos: time.and_utc().timestamp_subsec_nanos(),
            },
        ),
        Err(_) => None,
    }
}

/// Calls `chrono::NaiveDateTime::format` and writes the result out.
/// Trusted: whether a text comes out, and which, depends on the time and
/// the format alone.
#[verifier::external_body]
fn format_naive_datetime(time: &Timestamp, format: &str) -> (r: Option<String>)
    ensures
        match r {
            Some(text) => datetime_formatted(time.seconds, time.nanos, format@) == Some(text@),
            None => datetime_formatted(time.seconds, time.nanos, format@) is None,
        },
{
    let moment = chrono::DateTime::from_timestamp(time.seconds, time.nanos)?.naive_utc();
    let mut text = String::new();
    match write!(text, "{}", moment.format(format)) {
        Ok(()) => Some(text),
        Err(_) => None,
    }
}

/// The format of the dates in an instruction.
pub open spec fn instruction_date_format() -> Seq<char> {
    "%Y-%m-%dT%H:%M:%S"@
}

/// The format of the dates in an election record.
pub open spec fn record_date_format() -> Seq<char> {
    "%Y-%m-%d %H:%M:%S"@
}

/// The time that a date of an instruction stands for.
pub open spec fn instruction_date(text: Seq<char>) -> Option<Timestamp> {
    match datetime_parsed(text, instruction_date_format()) {
        Some((seconds, nanos)) => Some(Timestamp { seconds, nanos }),
        None => None,
    }
}

/// The text that stands for a time in an election record.
pub open spec fn record_date(time: Timestamp) -> Option<Seq<char>> {
    datetime_formatted(time.seconds, time.nanos, record_date_format())
}

/// Reads a date of an instruction, such as `2024-05-01T08:00:00`.
pub fn parse_instruction_date(text: &str) -> (r: Option<Timestamp>)
    ensures
        r == instruction_date(text@),
{
    parse_naive_datetime(text, "%Y-%m-%dT%H:%M:%S")
}

/// Writes a time as election records hold it, such as
/// `2024-05-01 08:00:00`.
pub fn format_record_date(time: &Timestamp) -> (r: Option<String>)
    ensures
        match r {
            Some(text) => record_date(*time) == Some(text@),
            None => record_date(*time) is None,
        },
{
    format_naive_datetime(time, "%Y-%m-%d %H:%M:%S")
}

} // verus!
