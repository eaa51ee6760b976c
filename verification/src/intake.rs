//! Making events out of what a caller or a store hands over as text.
//!
//! A caller's input that names its instant with a text which cannot be read
//! is refused, with the text. A stored record whose instant cannot be read
//! is still handed out, stamped with the instant of the reading.

use vstd::prelude::*;
use vstd::string::StringExecFns;
use crate::calendar::Timestamp;
use crate::models::{Category, Habit, HabitInput};

verus! {

/// The instant that a text in the RFC 3339 format names, as chrono reads it:
/// the seconds since 1970-01-01T00:00:00 UTC, leap seconds not counted, and
/// the nanoseconds since the last full second, which exceed 999 999 999 within
/// a leap second. `None` for a text that chrono does not take as RFC 3339.
pub uninterp spec fn rfc3339_instant(text: Seq<char>) -> Option<(int, int)>;

/// An instant as a pair of numbers.
pub open spec fn instant_of(timestamp: Option<Timestamp>) -> Option<(int, int)> {
    match timestamp {
        Some(t) => Some((t.seconds as int, t.nanos as int)),
        None => None,
    }
}

/// Calls `chrono::DateTime::parse_from_rfc3339` and reads what it gives with
/// `DateTime::timestamp` and `DateTime::timestamp_subsec_nanos`. Not proved,
/// and believed of chrono: that the same text always gives the same result,
/// which `rfc3339_instant` names. Nothing is claimed of which texts chrono
/// accepts or which instant it reads from them.
#[verifier::external_body]
fn parse_rfc3339(text: &str) -> (r: Option<Timestamp>)
    ensures
        instant_of(r) == rfc3339_instant(text@),
{
    match chrono::DateTime::parse_from_rfc3339(text) {
        Ok(instant) => Some(
            Timestamp { seconds: instant.timestamp(), nanos: instant.timestamp_subsec_nanos() },
        ),
        Err(_) => None,
    }
}

/// The instant `parsed`, or `fallback` where there is none.
pub open spec fn instant_or(parsed: Option<(int, int)>, fallback: Timestamp) -> (int, int) {
    match parsed {
        Some(instant) => instant,
        None => (fallback.seconds as int, fallback.nanos as int),
    }
}

/// The instant `parsed`, or `fallback` where there is none.
pub fn timestamp_or(parsed: Option<Timestamp>, fallback: Timestamp) -> (r: Timestamp)
    ensures
        r == match parsed {
            Some(t) => t,
            None => fallback,
        },
        instant_of(Some(r)) == Some(instant_or(instant_of(parsed), fallback)),
{
    match parsed {
        Some(t) => t,
        None => fallback,
    }
}

/// Reads the text of a stored instant in the RFC 3339 format; `fallback`
/// where it is not in that format.
pub fn read_timestamp(text: &str, fallback: Timestamp) -> (r: Timestamp)
    ensures
        instant_of(Some(r)) == Some(instant_or(rfc3339_instant(text@), fallback)),
{
    timestamp_or(parse_rfc3339(text), fallback)
}

/// The text with which an input names its instant, where there is one and
/// it is not in the RFC 3339 format.
pub open spec fn refused_text(timestamp: Option<String>) -> Option<Seq<char>> {
    match timestamp {
        Some(t) => if rfc3339_instant(t@) is None {
            Some(t@)
        } else {
            None
        },
        None => None,
    }
}

/// Why an input was not made into an event.
#[derive(Debug, Clone)]
pub enum IntakeError {
    /// The input names its instant with a text that is not in the RFC 3339
    /// format; the text is kept as it was given.
    InvalidTimestamp(String),
}

impl IntakeError {
    /// The text that was refused.
    pub open spec fn text(self) -> Seq<char> {
        match self {
            IntakeError::InvalidTimestamp(text) => text@,
        }
    }

    /// The error in words, with the text that was refused.
    pub fn message(&self) -> (r: String)
        ensures
            r@ == "Invalid timestamp: "@ + self.text(),
    {
        match self {
            IntakeError::InvalidTimestamp(text) => String::from_str("Invalid timestamp: ").concat(
                text.as_str(),
            ),
        }
    }
}

/// Reads a text in the RFC 3339 format; `None` where it is not in that
/// format.
pub fn parse_timestamp(text: &str) -> (r: Option<Timestamp>)
    ensures
        instant_of(r) == rfc3339_instant(text@),
{
    parse_rfc3339(text)
}

impl Habit {
    /// The event that `input` describes, under the identifier `id`, where
    /// `parsed` is what reading the instant of `input` gave, if it names one.
    /// An input that names no instant is stamped `now`; one whose text was
    /// read is stamped with what was read; one whose text could not be read
    /// is refused, and the error holds the text.
    pub fn with_timestamp(
        input: HabitInput,
        id: String,
        parsed: Option<Timestamp>,
        now: Timestamp,
    ) -> (r: Result<Habit, IntakeError>)
        ensures
            r is Err <==> input.timestamp is Some && parsed is None,
            r matches Err(e) ==> (input.timestamp matches Some(t) && e.text() == t@),
            r matches Ok(h) ==> {
                &&& h.id == id
                &&& h.name == input.name
                &&& h.category == Category::parse(input.category@)
                &&& h.timestamp == match input.timestamp {
                    Some(_) => parsed->0,
                    None => now,
                }
                &&& h.compliance_level == input.compliance_level
                &&& h.notes == input.notes
            },
    {
        let HabitInput { name, category, timestamp, compliance_level, notes } = input;
        let timestamp = match timestamp {
            None => now,
            Some(text) => match parsed {
                Some(instant) => instant,
                None => {
                    return Err(IntakeError::InvalidTimestamp(text));
                },
            },
        };
        Ok(
            Habit {
                id,
                name,
                category: Category::from_str(category.as_str()),
                timestamp,
                compliance_level,
                notes,
            },
        )
    }

    /// The event that `input` describes, under the identifier `id`. Its
    /// category is the one that the text of `input` stands for. Its instant
    /// is `now` where `input` names none, and the one that `input` names
    /// where its text is in the RFC 3339 format; an input whose text is not
    /// in that format is refused, and the error holds the text.
    pub fn from_input(input: HabitInput, id: String, now: Timestamp) -> (r: Result<
        Habit,
        IntakeError,
    >)
        ensures
            r is Err <==> refused_text(input.timestamp) is Some,
            r matches Err(e) ==> refused_text(input.timestamp) == Some(e.text()),
            r matches Ok(h) ==> {
                &&& h.id == id
                &&& h.name == input.name
                &&& h.category == Category::parse(input.category@)
                &&& input.timestamp is None ==> h.timestamp == now
                &&& input.timestamp matches Some(t) ==> rfc3339_instant(t@) == instant_of(
                    Some(h.timestamp),
                )
                &&& h.compliance_level == input.compliance_level
                &&& h.notes == input.notes
            },
    {
        let parsed = match &input.timestamp {
            Some(text) => parse_timestamp(text.as_str()),
            None => None,
        };
        Habit::with_timestamp(input, id, parsed, now)
    }

    /// The event that a stored record holds: its category and its instant are
    /// kept as text, and the instant falls back to `now` where the text is
    /// not in the RFC 3339 format.
    pub fn from_record(
        id: String,
        name: String,
        category: &str,
        timestamp: &str,
        compliance_level: Option<u8>,
        notes: Option<String>,
        now: Timestamp,
    ) -> (r: Habit)
        ensures
            r.id == id,
            r.name == name,
            r.category == Category::parse(category@),
            instant_of(Some(r.timestamp)) == Some(instant_or(rfc3339_instant(timestamp@), now)),
            r.compliance_level == compliance_level,
            r.notes == notes,
    {
        Habit {
            id,
            name,
            category: Category::from_str(category),
            timestamp: read_timestamp(timestamp, now),
            compliance_level,
            notes,
        }
    }
}

} // verus!
