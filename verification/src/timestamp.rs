//! Reading the ends of a time range: a date and time with its offset,
//! as text, becomes milliseconds since the Unix epoch.

use vstd::prelude::*;

verus! {

/// Why a text was not accepted as a point in time.
#[derive(Clone, Copy, Debug, PartialEq, Eq, Structural)]
pub enum TimestampError {
    /// The text is no date and time with an offset.
    InvalidFormat,
}

impl TimestampError {
    /// The sentence shown to the user for this error.
    pub fn message(&self) -> (r: &'static str)
        ensures
            r@ == "Invalid Iso timestamp format."@,
    {
        match self {
            TimestampError::InvalidFormat => "Invalid Iso timestamp format.",
        }
    }
}

/// The error with which chrono refuses a text.
#[verifier::external_type_specification]
#[verifier::external_body]
pub struct ExChronoParseError(chrono::ParseError);

/// What chrono reads in a text as a UTC date and time, in milliseconds
/// relative to the Unix epoch (negative before it), or `None` where
/// chrono refuses the text. chrono reads RFC 3339 in a relaxed form: a
/// blank may stand for the `T`, blanks may separate the parts, and the
/// offset is required.
pub uninterp spec fn chrono_utc_millis(text: Seq<char>) -> Option<i64>;

/// Calls chrono's `FromStr` for `DateTime<Utc>` (through `str::parse`) and,
/// on the date and time that it returns, `DateTime::timestamp_millis`.
/// Nothing is proved of either. The contract gives the outcome a name: it
/// claims that the outcome depends on the text alone, that an `Ok` holds
/// the named milliseconds, and that an `Err` comes exactly where the name
/// is `None`.
#[verifier::external_body]
fn parse_utc_millis(text: &str) -> (r: Result<i64, chrono::ParseError>)
    ensures
        r is Ok <==> chrono_utc_millis(text@) is Some,
        r is Ok ==> chrono_utc_millis(text@) == Some(r->Ok_0),
{
    match text.parse::<chrono::DateTime<chrono::Utc>>() {
        Ok(instant) => Ok(instant.timestamp_millis()),
        Err(e) => Err(e),
    }
}

/// A signed count of milliseconds as an unsigned one of 64 bits: itself
/// from the epoch on, and 2^64 more than itself before the epoch.
pub open spec fn wrapped_millis(millis: i64) -> u64 {
    if millis >= 0 {
        millis as u64
    } else {
        (millis + 0x1_0000_0000_0000_0000) as u64
    }
}

/// The result for a text of which `parsed` was read: the wrapped
/// milliseconds, or `InvalidFormat` where nothing was read.
pub open spec fn unix_millis_of(parsed: Option<i64>) -> Result<u64, TimestampError> {
    match parsed {
        Some(millis) => Ok(wrapped_millis(millis)),
        None => Err(TimestampError::InvalidFormat),
    }
}

/// Turns what was read of a text into the milliseconds since the Unix
/// epoch. A point in time before the epoch is not refused: its negative
/// count wraps around into the upper half of the unsigned range.
pub fn unix_millis_from_parsed(parsed: Option<i64>) -> (r: Result<u64, TimestampError>)
    ensures
        r == unix_millis_of(parsed),
        parsed matches Some(millis) ==> (millis >= 0 ==> r == Ok::<u64, TimestampError>(millis as u64)),
{
    match parsed {
        Some(millis) => {
            if millis >= 0 {
                Ok(millis as u64)
            } else {
                let below: u64 = (-(millis + 1)) as u64;
                Ok(u64::MAX - below)
            }
        },
        None => Err(TimestampError::InvalidFormat),
    }
}

/// Reads `text` as a date and time with its offset (such as
/// `2024-11-17T15:45:00Z`) and returns the milliseconds since the Unix
/// epoch. Which texts are dates, and which instant each one means, is
/// chrono's to say; this function fails with `InvalidFormat` exactly
/// where chrono refuses the text, returns chrono's count unchanged from
/// the epoch on, and wraps it before the epoch.
pub fn parse_iso8601_to_unix_millis(text: &str) -> (r: Result<u64, TimestampError>)
    ensures
        r == unix_millis_of(chrono_utc_millis(text@)),
        r is Ok <==> chrono_utc_millis(text@) is Some,
        r is Err ==> r == Err::<u64, TimestampError>(TimestampError::InvalidFormat),
        chrono_utc_millis(text@) matches Some(millis) ==> (millis >= 0 ==> r == Ok::<
            u64,
            TimestampError,
        >(millis as u64)),
{
    match parse_utc_millis(text) {
        Ok(millis) => unix_millis_from_parsed(Some(millis)),
        Err(_) => unix_millis_from_parsed(None),
    }
}

/// From the epoch on nothing wraps: a count of milliseconds that is not
/// negative comes out as itself.
pub proof fn lemma_no_wrap_from_epoch(millis: i64)
    requires
        millis >= 0,
    ensures
        unix_millis_of(Some(millis)) == Ok::<u64, TimestampError>(millis as u64),
        wrapped_millis(millis) as int == millis as int,
{
}

} // verus!
