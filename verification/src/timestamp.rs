//! Instants on the UTC time line, held as plain integers, and their reading
//! from text.

use vstd::prelude::*;
use crate::error::{ApiError, ApiErrorView, Status};

verus! {

/// A UTC instant: the whole seconds since the Unix epoch, not counting leap
/// seconds, and the nanoseconds since the last second boundary. During a leap
/// second the nanoseconds run on past 999,999,999, so two instants are in
/// chronological order exactly when they are in lexicographic order.
#[derive(Clone, Copy, Debug, PartialEq, Eq, Structural, Hash)]
pub struct Timestamp {
    pub secs: i64,
    pub nanos: u32,
}

impl Timestamp {
    /// Whether `self` lies strictly before `other` on the time line.
    pub open spec fn spec_is_before(self, other: Timestamp) -> bool {
        self.secs < other.secs || (self.secs == other.secs && self.nanos < other.nanos)
    }

    /// Whether `self` lies strictly before `other` on the time line.
    #[verifier::when_used_as_spec(spec_is_before)]
    pub fn is_before(self, other: Timestamp) -> (r: bool)
        ensures
            r == self.spec_is_before(other),
    {
        self.secs < other.secs || (self.secs == other.secs && self.nanos < other.nanos)
    }

    /// Whether `self` lies between `first` and `last`, both included.
    pub open spec fn spec_is_within(self, first: Timestamp, last: Timestamp) -> bool {
        !self.spec_is_before(first) && !last.spec_is_before(self)
    }

    /// Whether `self` lies between `first` and `last`, both included.
    #[verifier::when_used_as_spec(spec_is_within)]
    pub fn is_within(self, first: Timestamp, last: Timestamp) -> (r: bool)
        ensures
            r == self.spec_is_within(first, last),
    {
        !self.is_before(first) && !last.is_before(self)
    }
}

/// What chrono makes of a text that is to be read as a UTC instant: the
/// seconds and nanoseconds of the instant, or the words of chrono's error.
pub uninterp spec fn utc_parse(text: Seq<char>) -> Result<(i64, u32), Seq<char>>;

/// What reading a text as a UTC instant gives: the instant, or the words
/// with which the text is refused.
pub open spec fn timestamp_reading(text: Seq<char>) -> Result<Timestamp, Seq<char>> {
    match utc_parse(text) {
        Ok(parts) => Ok(Timestamp { secs: parts.0, nanos: parts.1 }),
        Err(words) => Err(words),
    }
}

/// Reads a UTC instant with chrono's `FromStr` for `DateTime<Utc>`, which
/// accepts a relaxed form of RFC 3339 and converts the offset it finds to UTC.
///
/// Trusted: that the outcome is a function of the text alone, which
/// `utc_parse` names. An instant is handed out as its `timestamp()` and
/// `timestamp_subsec_nanos()`, a failure as the `Display` text of chrono's
/// `ParseError`. Nothing is claimed about which texts are accepted.
#[verifier::external_body]
pub(crate) fn parse_utc(text: &str) -> (r: Result<Timestamp, String>)
    ensures
        match r {
            Ok(t) => utc_parse(text@) == Ok::<(i64, u32), Seq<char>>((t.secs, t.nanos)),
            Err(words) => utc_parse(text@) == Err::<(i64, u32), Seq<char>>(words@),
        },
{
    match text.parse::<chrono::DateTime<chrono::Utc>>() {
        Ok(at) => Ok(Timestamp { secs: at.timestamp(), nanos: at.timestamp_subsec_nanos() }),
        Err(e) => Err(e.to_string()),
    }
}

/// The error that answers a timestamp which could not be read.
pub open spec fn invalid_timestamp() -> ApiErrorView {
    ApiError::spec_new("Invalid timestamp format"@, Status::BadRequest)
}

/// Turns the outcome of reading a timestamp into the answer for a caller:
/// the instant, or a bad request that does not repeat the parser's words.
pub fn timestamp_or_bad_request(parsed: Result<Timestamp, String>) -> (r: Result<
    Timestamp,
    ApiError,
>)
    ensures
        match parsed {
            Ok(t) => r == Ok::<Timestamp, ApiError>(t),
            Err(_) => r is Err && r->Err_0@ == invalid_timestamp(),
        },
{
    match parsed {
        Ok(t) => Ok(t),
        Err(_) => Err(ApiError::new("Invalid timestamp format", Status::BadRequest)),
    }
}

/// Reads a timestamp given as text. Succeeds exactly on the texts that
/// denote an instant.
pub fn parse_timestamp(timestamp_str: &str) -> (r: Result<Timestamp, ApiError>)
    ensures
        match timestamp_reading(timestamp_str@) {
            Ok(t) => r == Ok::<Timestamp, ApiError>(t),
            Err(_) => r is Err && r->Err_0@ == invalid_timestamp(),
        },
{
    timestamp_or_bad_request(parse_utc(timestamp_str))
}

} // verus!
