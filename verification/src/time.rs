//! Instants, and the dates of the wire format.

use chrono::format::ParseError as DateFault;
use chrono::NaiveDateTime;
use vstd::prelude::*;

verus! {

/// An instant in UTC: the non-leap seconds since 1970-01-01 00:00:00, and
/// the nanoseconds into that second.  During a leap second `nanos` is a
/// thousand million or more.
#[derive(Debug, PartialEq, Eq, Structural, Clone, Copy, Hash, PartialOrd, Ord)]
pub struct Timestamp {
    pub secs: i64,
    pub nanos: u32,
}

/// How the service writes the time of a match.  It names no time zone;
/// the time is taken as UTC.
pub const DATE_FORMAT: &'static str = "%Y-%m-%d %H:%M:%S";

/// The instant that `text` gives when read by `format`, a format of
/// chrono's `strftime` kind, if it gives one.
pub uninterp spec fn parsed_datetime(text: Seq<char>, format: Seq<char>) -> Option<Timestamp>;

/// `chrono::NaiveDateTime::parse_from_str`, with the date and time that it
/// reads taken as UTC and given as seconds and nanoseconds.  The call
/// succeeds exactly on the texts for which `parsed_datetime` names an
/// instant, and hands out that instant.
#[verifier::external_body]
fn parse_datetime(text: &str, format: &str) -> (r: Result<Timestamp, DateFault>)
    ensures
        r is Ok <==> parsed_datetime(text@, format@) is Some,
        r matches Ok(instant) ==> parsed_datetime(text@, format@) == Some(instant),
{
    match NaiveDateTime::parse_from_str(text, format) {
        Ok(read) => Ok(
            Timestamp {
                secs: read.and_utc().timestamp(),
                nanos: read.and_utc().timestamp_subsec_nanos(),
            },
        ),
        Err(e) => Err(e),
    }
}

impl Timestamp {
    /// `self` is earlier than `other`.
    pub open spec fn before(self, other: Timestamp) -> bool {
        self.secs < other.secs || (self.secs == other.secs && self.nanos < other.nanos)
    }

    /// Whether `self` is earlier than `other`.
    pub fn is_before(&self, other: &Timestamp) -> (r: bool)
        ensures
            r == self.before(*other),
    {
        self.secs < other.secs || (self.secs == other.secs && self.nanos < other.nanos)
    }

    /// The instant that a date of the wire format gives.
    pub open spec fn of_date(text: Seq<char>) -> Option<Timestamp> {
        parsed_datetime(text, DATE_FORMAT@)
    }

    /// Reads a date of the wire format.
    pub fn parse(text: &str) -> (r: Result<Timestamp, DateFault>)
        ensures
            r is Ok <==> Timestamp::of_date(text@) is Some,
            r matches Ok(instant) ==> Timestamp::of_date(text@) == Some(instant),
    {
        parse_datetime(text, DATE_FORMAT)
    }
}

} // verus!
