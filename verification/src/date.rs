//! The date helpers. A timestamp is read from text and written in a
//! strftime-style format by the `chrono` crate.

use crate::fault::Fault;
use vstd::prelude::*;

verus! {

/// An instant on the UTC time line: whole seconds since the start of 1970,
/// and the nanoseconds past that second.
#[derive(Clone, Copy, Debug, PartialEq, Eq, Structural)]
pub struct Timestamp {
    pub secs: i64,
    pub nanos: u32,
}

/// The instant that `chrono` reads from a text, if it reads one.
pub uninterp spec fn parsed_timestamp(text: Seq<char>) -> Option<Timestamp>;

/// The text that `chrono` writes for an instant in UTC under a format, if
/// the instant is in its range and the format is valid.
pub uninterp spec fn formatted_timestamp(moment: Timestamp, format: Seq<char>) -> Option<
    Seq<char>,
>;

/// Calls `str::parse` for `chrono::DateTime<Utc>`, which accepts a relaxed
/// RFC 3339 form and converts to UTC. The contract only gives the result its
/// name: it depends on the text alone.
#[verifier::external_body]
fn parse_timestamp(text: &str) -> (r: Option<Timestamp>)
    ensures
        r == parsed_timestamp(text@),
{
    match text.parse::<chrono::DateTime<chrono::Utc>>() {
        Ok(moment) => Some(
            Timestamp { secs: moment.timestamp(), nanos: moment.timestamp_subsec_nanos() },
        ),
        Err(_) => None,
    }
}

/// Builds the instant with `chrono::DateTime::from_timestamp` and writes it
/// with `DateTime::format` and `DelayedFormat::write_to`, which fail on an
/// instant out of range and on an unknown specifier. The contract only gives
/// the result its name: it depends on the instant and the format alone.
#[verifier::external_body]
fn format_timestamp(moment: Timestamp, format: &str) -> (r: Option<String>)
    ensures
        match r {
            Some(text) => formatted_timestamp(moment, format@) == Some(text@),
            None => formatted_timestamp(moment, format@) is None,
        },
{
    let date = chrono::DateTime::<chrono::Utc>::from_timestamp(moment.secs, moment.nanos)?;
    let mut out = String::new();
    match date.format(format).write_to(&mut out) {
        Ok(()) => Some(out),
        Err(_) => None,
    }
}

/// Calls `chrono::Utc::now`. Nothing is promised of the result: it is the
/// time of the call.
#[verifier::external_body]
fn current_time() -> (r: Timestamp) {
    let moment = chrono::Utc::now();
    Timestamp { secs: moment.timestamp(), nanos: moment.timestamp_subsec_nanos() }
}

/// The result of a date helper as a mathematical value.
pub open spec fn text_outcome(r: Result<String, Fault>) -> Result<Seq<char>, Fault> {
    match r {
        Ok(text) => Ok(text@),
        Err(fault) => Err(fault),
    }
}

/// What writing gives: the text, or the fault of a format that could not be
/// applied.
pub open spec fn written(text: Option<Seq<char>>) -> Result<Seq<char>, Fault> {
    match text {
        Some(t) => Ok(t),
        None => Err(Fault::InvalidFormat),
    }
}

/// What a date helper gives for an instant that was read, or not, and a
/// format.
pub open spec fn rendered(moment: Option<Timestamp>, format: Seq<char>) -> Result<
    Seq<char>,
    Fault,
> {
    match moment {
        None => Err(Fault::InvalidTimestamp),
        Some(t) => written(formatted_timestamp(t, format)),
    }
}

/// Turns what the formatter wrote into the helper's result.
pub fn checked_text(text: Option<String>) -> (r: Result<String, Fault>)
    ensures
        text_outcome(r) == written(
            match text {
                Some(t) => Some(t@),
                None => None,
            },
        ),
{
    match text {
        Some(t) => Ok(t),
        None => Err(Fault::InvalidFormat),
    }
}

/// Writes an instant under a format; an instant that could not be read is a
/// fault.
pub fn render(moment: Option<Timestamp>, format: &str) -> (r: Result<String, Fault>)
    ensures
        text_outcome(r) == rendered(moment, format@),
{
    match moment {
        None => Err(Fault::InvalidTimestamp),
        Some(t) => checked_text(format_timestamp(t, format)),
    }
}

/// Reads a timestamp from `date` and writes it under `format_string`.
pub fn date_format(format_string: &str, date: &str) -> (r: Result<String, Fault>)
    ensures
        text_outcome(r) == rendered(parsed_timestamp(date@), format_string@),
{
    render(parse_timestamp(date), format_string)
}

/// Writes the current time under `format_string`. The result varies with the
/// time of the call: it is what the format gives for some instant.
pub fn now(format_string: &str) -> (r: Result<String, Fault>)
    ensures
        exists|moment: Timestamp| text_outcome(r) == rendered(Some(moment), format_string@),
{
    let moment = current_time();
    render(Some(moment), format_string)
}

} // verus!
